use vstd::prelude::*;

use crate::scalar::{f32_le, float_le};

verus! {

/// A closed interval `[lower, upper]`, bounds as `f32` bit patterns.
#[derive(Clone, Copy, Debug, PartialEq, Eq, Structural)]
pub struct Interval {
    pub lower: u32,
    pub upper: u32,
}

impl Interval {
    /// The interval is not degenerate: neither bound is NaN and `lower <= upper`.
    pub open spec fn spec_is_valid(&self) -> bool {
        float_le(self.lower, self.upper)
    }

    pub fn is_valid(&self) -> (r: bool)
        ensures
            r == self.spec_is_valid(),
    {
        f32_le(self.lower, self.upper)
    }
}

/// 2D bounding region.
#[derive(Clone, Copy, Debug, PartialEq, Eq, Structural)]
pub struct Region2 {
    pub x: Interval,
    pub y: Interval,
}

impl Region2 {
    /// The region `[x_min, x_max] x [y_min, y_max]`, bounds as `f32` bit patterns.
    pub fn new(x_min: u32, x_max: u32, y_min: u32, y_max: u32) -> (r: Region2)
        ensures
            r.x == (Interval { lower: x_min, upper: x_max }),
            r.y == (Interval { lower: y_min, upper: y_max }),
    {
        Region2 { x: Interval { lower: x_min, upper: x_max }, y: Interval { lower: y_min, upper: y_max } }
    }

    /// Whether each axis' interval is valid; a region that is not must not be rendered.
    pub fn is_valid(&self) -> (r: bool)
        ensures
            r == (self.x.spec_is_valid() && self.y.spec_is_valid()),
    {
        self.x.is_valid() && self.y.is_valid()
    }
}

/// 3D bounding region.
#[derive(Clone, Copy, Debug, PartialEq, Eq, Structural)]
pub struct Region3 {
    pub x: Interval,
    pub y: Interval,
    pub z: Interval,
}

impl Region3 {
    /// The region `[x_min, x_max] x [y_min, y_max] x [z_min, z_max]`, bounds as `f32` bit patterns.
    pub fn new(x_min: u32, x_max: u32, y_min: u32, y_max: u32, z_min: u32, z_max: u32) -> (r: Region3)
        ensures
            r.x == (Interval { lower: x_min, upper: x_max }),
            r.y == (Interval { lower: y_min, upper: y_max }),
            r.z == (Interval { lower: z_min, upper: z_max }),
    {
        Region3 {
            x: Interval { lower: x_min, upper: x_max },
            y: Interval { lower: y_min, upper: y_max },
            z: Interval { lower: z_min, upper: z_max },
        }
    }

    /// Whether each axis' interval is valid; a region that is not must not be rendered.
    pub fn is_valid(&self) -> (r: bool)
        ensures
            r == (self.x.spec_is_valid() && self.y.spec_is_valid() && self.z.spec_is_valid()),
    {
        self.x.is_valid() && self.y.is_valid() && self.z.is_valid()
    }
}

/// The algorithm that computes a boundary representation from a tree.
#[derive(Clone, Copy, Debug, PartialEq, Eq, Structural)]
pub enum BRepAlgorithm {
    DualContouring,
    IsoSimplex,
    Hybrid,
}

impl BRepAlgorithm {
    pub open spec fn spec_code(self) -> u32 {
        match self {
            BRepAlgorithm::DualContouring => 0,
            BRepAlgorithm::IsoSimplex => 1,
            BRepAlgorithm::Hybrid => 2,
        }
    }

    /// The numeric code of the algorithm.
    pub fn code(&self) -> (r: u32)
        ensures
            r == self.spec_code(),
    {
        match self {
            BRepAlgorithm::DualContouring => 0,
            BRepAlgorithm::IsoSimplex => 1,
            BRepAlgorithm::Hybrid => 2,
        }
    }

    /// The algorithm with numeric code `c`; an unknown code gives dual contouring.
    pub fn from_code(c: u32) -> (r: BRepAlgorithm)
        ensures
            c <= 2 ==> r.spec_code() == c,
            c > 2 ==> r == BRepAlgorithm::DualContouring,
    {
        match c {
            1 => BRepAlgorithm::IsoSimplex,
            2 => BRepAlgorithm::Hybrid,
            _ => BRepAlgorithm::DualContouring,
        }
    }
}

impl Default for BRepAlgorithm {
    fn default() -> (r: BRepAlgorithm)
        ensures
            r == BRepAlgorithm::DualContouring,
    {
        BRepAlgorithm::DualContouring
    }
}

/// Bit pattern of the `f32` ten, the default resolution.
pub const DEFAULT_RESOLUTION: u32 = 0x4120_0000;

/// Bit pattern of the `f32` eight, the default quality.
pub const DEFAULT_QUALITY: u32 = 0x4100_0000;

/// Settings of the boundary-representation export.
#[derive(Clone, Copy, Debug, PartialEq, Eq, Structural)]
pub struct BRepSettings {
    /// Subdivision halts once a cell's edge is below `1 / resolution` (an `f32` bit pattern).
    pub resolution: u32,
    /// How readily cells are merged (an `f32` bit pattern); large values merge only
    /// near-linear regions.
    pub quality: u32,
    /// Number of worker threads; 0 asks for the platform's default.
    pub workers: u32,
    pub algorithm: BRepAlgorithm,
}

impl Default for BRepSettings {
    /// Resolution 10, quality 8, the default number of workers, dual contouring.
    fn default() -> (r: BRepSettings)
        ensures
            r.resolution == DEFAULT_RESOLUTION,
            r.quality == DEFAULT_QUALITY,
            r.workers == 0,
            r.algorithm == BRepAlgorithm::DualContouring,
    {
        BRepSettings {
            resolution: DEFAULT_RESOLUTION,
            quality: DEFAULT_QUALITY,
            workers: 0,
            algorithm: BRepAlgorithm::DualContouring,
        }
    }
}

/// Occupancy of a slice, `width * height` pixels in row-major order.
pub struct Bitmap {
    width: u32,
    height: u32,
    pixels: Vec<bool>,
}

impl View for Bitmap {
    type V = Seq<bool>;

    closed spec fn view(&self) -> Seq<bool> {
        self.pixels@
    }
}

impl Bitmap {
    #[verifier::type_invariant]
    spec fn inv(self) -> bool {
        self.pixels@.len() == self.width as int * self.height as int
    }

    pub closed spec fn spec_width(&self) -> u32 {
        self.width
    }

    pub closed spec fn spec_height(&self) -> u32 {
        self.height
    }

    /// A bitmap of the given size from its pixels in row-major order; `None` unless
    /// there are exactly `width * height` of them.
    pub fn from_pixels(width: u32, height: u32, pixels: Vec<bool>) -> (r: Option<Bitmap>)
        ensures
            r is Some <==> pixels@.len() == width as int * height as int,
            r matches Some(b) ==> b.spec_width() == width && b.spec_height() == height && b@ == pixels@,
    {
        proof {
            assert((width as int) * (height as int) <= u64::MAX) by (nonlinear_arith)
                requires
                    width <= u32::MAX,
                    height <= u32::MAX,
            ;
        }
        if pixels.len() as u64 == (width as u64) * (height as u64) {
            Some(Bitmap { width, height, pixels })
        } else {
            None
        }
    }

    /// The pixels, in row-major order.
    pub fn as_slice(&self) -> (r: &[bool])
        ensures
            r@ == self@,
            r@.len() == self.spec_width() as int * self.spec_height() as int,
    {
        proof {
            use_type_invariant(self);
        }
        self.pixels.as_slice()
    }

    /// The pixel in column `x` of row `y`.
    pub fn pixel(&self, x: u32, y: u32) -> (r: bool)
        requires
            x < self.spec_width(),
            y < self.spec_height(),
        ensures
            r == self@[y as int * self.spec_width() as int + x as int],
    {
        proof {
            use_type_invariant(self);
            assert((y as int) * (self.width as int) + (x as int) < (self.width as int) * (self.height as int))
                by (nonlinear_arith)
                requires
                    x < self.width,
                    y < self.height,
            ;
        }
        let len = self.pixels.len();
        proof {
            assert((y as int) * (self.width as int) + (x as int) < len);
        }
        self.pixels[(y as usize) * (self.width as usize) + (x as usize)]
    }

    pub fn width(&self) -> (r: u32)
        ensures
            r == self.spec_width(),
    {
        self.width
    }

    pub fn height(&self) -> (r: u32)
        ensures
            r == self.spec_height(),
    {
        self.height
    }
}

/// A triangle mesh: vertex positions (`f32` bit patterns) and triangles as indices into them.
pub struct TriangleMesh {
    pub positions: Vec<[u32; 3]>,
    pub triangles: Vec<[u32; 3]>,
}

impl TriangleMesh {
    /// Every index of every triangle names a vertex.
    pub open spec fn spec_is_valid(&self) -> bool {
        forall|i: int, k: int|
            0 <= i < self.triangles@.len() && 0 <= k < 3 ==> (#[trigger] self.triangles@[i]@[k] as int)
                < self.positions@.len()
    }

    pub fn is_valid(&self) -> (r: bool)
        ensures
            r == self.spec_is_valid(),
    {
        let n = self.positions.len();
        let mut i: usize = 0;
        while i < self.triangles.len()
            invariant
                n == self.positions@.len(),
                0 <= i <= self.triangles@.len(),
                forall|j: int, k: int|
                    0 <= j < i && 0 <= k < 3 ==> (#[trigger] self.triangles@[j]@[k] as int) < n,
            decreases self.triangles@.len() - i,
        {
            let t = self.triangles[i];
            if t[0] as usize >= n || t[1] as usize >= n || t[2] as usize >= n {
                assert(self.triangles@[i as int]@[0] == t[0]);
                assert(self.triangles@[i as int]@[1] == t[1]);
                assert(self.triangles@[i as int]@[2] == t[2]);
                return false;
            }
            i = i + 1;
        }
        true
    }
}

/// Whether triangle `t` has the edge between vertices `a` and `b`, in either direction.
pub open spec fn has_edge(t: [u32; 3], a: u32, b: u32) -> bool {
    let (p, q, r) = (t@[0], t@[1], t@[2]);
    (p == a && q == b) || (q == a && p == b) || (q == a && r == b) || (r == a && q == b) || (r == a
        && p == b) || (p == a && r == b)
}

/// How many of `tris` have the edge between `a` and `b`.
pub open spec fn edge_count(tris: Seq<[u32; 3]>, a: u32, b: u32) -> nat
    decreases tris.len(),
{
    if tris.len() == 0 {
        0
    } else {
        edge_count(tris.drop_last(), a, b) + if has_edge(tris.last(), a, b) {
            1nat
        } else {
            0nat
        }
    }
}

/// Every edge of every triangle is shared by exactly two triangles.
pub open spec fn edges_paired(tris: Seq<[u32; 3]>) -> bool {
    forall|i: int|
        0 <= i < tris.len() ==> {
            let t = #[trigger] tris[i];
            &&& edge_count(tris, t@[0], t@[1]) == 2
            &&& edge_count(tris, t@[1], t@[2]) == 2
            &&& edge_count(tris, t@[2], t@[0]) == 2
        }
}

fn count_edge(tris: &Vec<[u32; 3]>, a: u32, b: u32) -> (r: usize)
    ensures
        r == edge_count(tris@, a, b),
{
    let mut count: usize = 0;
    let mut j: usize = 0;
    while j < tris.len()
        invariant
            0 <= j <= tris@.len(),
            count == edge_count(tris@.subrange(0, j as int), a, b),
            count <= j,
        decreases tris@.len() - j,
    {
        let t = tris[j];
        proof {
            assert(tris@.subrange(0, j + 1).drop_last() =~= tris@.subrange(0, j as int));
        }
        if (t[0] == a && t[1] == b) || (t[1] == a && t[0] == b) || (t[1] == a && t[2] == b) || (t[2]
            == a && t[1] == b) || (t[2] == a && t[0] == b) || (t[0] == a && t[2] == b) {
            count = count + 1;
        }
        j = j + 1;
    }
    assert(tris@.subrange(0, tris@.len() as int) =~= tris@);
    count
}

impl TriangleMesh {
    /// Whether every edge of every triangle is shared by exactly two triangles, as on
    /// the surface of a closed solid.
    pub fn is_closed(&self) -> (r: bool)
        ensures
            r == edges_paired(self.triangles@),
    {
        let tris = &self.triangles;
        let mut i: usize = 0;
        while i < tris.len()
            invariant
                tris@ == self.triangles@,
                0 <= i <= tris@.len(),
                forall|j: int|
                    0 <= j < i ==> {
                        let t = #[trigger] tris@[j];
                        &&& edge_count(tris@, t@[0], t@[1]) == 2
                        &&& edge_count(tris@, t@[1], t@[2]) == 2
                        &&& edge_count(tris@, t@[2], t@[0]) == 2
                    },
            decreases tris@.len() - i,
        {
            let t = tris[i];
            if count_edge(tris, t[0], t[1]) != 2 || count_edge(tris, t[1], t[2]) != 2 || count_edge(
                tris,
                t[2],
                t[0],
            ) != 2 {
                proof {
                    assert(tris@[i as int] == t);
                }
                return false;
            }
            i = i + 1;
        }
        true
    }
}

/// A triangle mesh in flat arrays: `positions` is `[x0, y0, z0, x1, ...]` and
/// `triangles` is `[t0.v0, t0.v1, t0.v2, t1.v0, ...]`.
pub struct FlatTriangleMesh {
    pub positions: Vec<u32>,
    pub triangles: Vec<u32>,
}

/// The triples of `s`, one after the other.
fn flatten(s: &Vec<[u32; 3]>) -> (r: Vec<u32>)
    ensures
        r@.len() == 3 * s@.len(),
        forall|m: int| 0 <= m < r@.len() ==> #[trigger] r@[m] == s@[m / 3]@[m % 3],
{
    let mut r: Vec<u32> = Vec::new();
    let mut i: usize = 0;
    while i < s.len()
        invariant
            0 <= i <= s@.len(),
            r@.len() == 3 * i,
            forall|m: int| 0 <= m < r@.len() ==> #[trigger] r@[m] == s@[m / 3]@[m % 3],
        decreases s@.len() - i,
    {
        let t = s[i];
        r.push(t[0]);
        r.push(t[1]);
        r.push(t[2]);
        i = i + 1;
    }
    r
}

impl FlatTriangleMesh {
    /// The same mesh in flat arrays.
    pub fn from(mesh: TriangleMesh) -> (r: FlatTriangleMesh)
        ensures
            r.positions@.len() == 3 * mesh.positions@.len(),
            r.triangles@.len() == 3 * mesh.triangles@.len(),
            forall|m: int|
                0 <= m < r.positions@.len() ==> #[trigger] r.positions@[m] == mesh.positions@[m / 3]@[m % 3],
            forall|m: int|
                0 <= m < r.triangles@.len() ==> #[trigger] r.triangles@[m] == mesh.triangles@[m / 3]@[m % 3],
    {
        FlatTriangleMesh { positions: flatten(&mesh.positions), triangles: flatten(&mesh.triangles) }
    }
}

} // verus!
