use vstd::prelude::*;

use crate::op::Op;
use crate::stdlib::{difference_of, intersection_of, TreeVec2, TreeVec3, ZERO_BITS};
use crate::transforms::{bin, moved, un, TWO_BITS};
use crate::node::Term;
use crate::tree::{Tree, TreeFloat};

verus! {

/// Distance from the `z` axis: `sqrt(x^2 + y^2)`.
pub open spec fn radial_xy() -> Term {
    un(Op::Sqrt, bin(Op::Add, un(Op::Square, Term::X), un(Op::Square, Term::Y)))
}

/// Distance from the origin: `sqrt(x^2 + y^2 + z^2)`.
pub open spec fn radial_xyz() -> Term {
    un(
        Op::Sqrt,
        bin(Op::Add, bin(Op::Add, un(Op::Square, Term::X), un(Op::Square, Term::Y)), un(Op::Square, Term::Z)),
    )
}

pub open spec fn circle_of(r: Term, cx: Term, cy: Term) -> Term {
    moved(bin(Op::Sub, radial_xy(), r), cx, cy, Term::Const(ZERO_BITS))
}

pub open spec fn sphere_of(r: Term, cx: Term, cy: Term, cz: Term) -> Term {
    moved(bin(Op::Sub, radial_xyz(), r), cx, cy, cz)
}

/// `max(max(ax - x, x - bx), max(ay - y, y - by))`.
pub open spec fn rectangle_of(ax: Term, ay: Term, bx: Term, by: Term) -> Term {
    bin(
        Op::Max,
        bin(Op::Max, bin(Op::Sub, ax, Term::X), bin(Op::Sub, Term::X, bx)),
        bin(Op::Max, bin(Op::Sub, ay, Term::Y), bin(Op::Sub, Term::Y, by)),
    )
}

/// `t` cut to the slab `zmin <= z <= zmax`: `max(t, max(zmin - z, z - zmax))`.
pub open spec fn extruded(t: Term, zmin: Term, zmax: Term) -> Term {
    intersection_of(t, bin(Op::Max, bin(Op::Sub, zmin, Term::Z), bin(Op::Sub, Term::Z, zmax)))
}

pub open spec fn torus_of(ro: Term, ri: Term, cx: Term, cy: Term, cz: Term) -> Term {
    moved(
        bin(
            Op::Sub,
            un(Op::Sqrt, bin(Op::Add, un(Op::Square, bin(Op::Sub, ro, radial_xy())), un(Op::Square, Term::Z))),
            ri,
        ),
        cx,
        cy,
        cz,
    )
}

/// Half the extent along one axis, less the distance from the centre: `|c - c0| - s / 2`.
pub open spec fn excess(c: Term, c0: Term, s: Term) -> Term {
    bin(Op::Sub, un(Op::Abs, bin(Op::Sub, c, c0)), bin(Op::Div, s, Term::Const(TWO_BITS)))
}

/// `max(t, 0)`.
pub open spec fn positive_part(t: Term) -> Term {
    bin(Op::Max, t, Term::Const(ZERO_BITS))
}

/// The exact distance field of a centred rectangle, from its per-axis excesses:
/// `min(max(dx, dy), 0) + sqrt(max(dx, 0)^2 + max(dy, 0)^2)`.
pub open spec fn exact2(dx: Term, dy: Term) -> Term {
    bin(
        Op::Add,
        bin(Op::Min, bin(Op::Max, dx, dy), Term::Const(ZERO_BITS)),
        un(
            Op::Sqrt,
            bin(Op::Add, un(Op::Square, positive_part(dx)), un(Op::Square, positive_part(dy))),
        ),
    )
}

/// The exact distance field of a centred box, from its per-axis excesses.
pub open spec fn exact3(dx: Term, dy: Term, dz: Term) -> Term {
    bin(
        Op::Add,
        bin(Op::Min, bin(Op::Max, dx, bin(Op::Max, dy, dz)), Term::Const(ZERO_BITS)),
        un(
            Op::Sqrt,
            bin(
                Op::Add,
                bin(Op::Add, un(Op::Square, positive_part(dx)), un(Op::Square, positive_part(dy))),
                un(Op::Square, positive_part(dz)),
            ),
        ),
    )
}

/// `(a + b) / 2`.
pub open spec fn midpoint(a: Term, b: Term) -> Term {
    bin(Op::Div, bin(Op::Add, a, b), Term::Const(TWO_BITS))
}

/// `c - s / 2` and `c + s / 2`.
pub open spec fn low_corner(c: Term, s: Term) -> Term {
    bin(Op::Sub, c, bin(Op::Div, s, Term::Const(TWO_BITS)))
}

pub open spec fn high_corner(c: Term, s: Term) -> Term {
    bin(Op::Add, c, bin(Op::Div, s, Term::Const(TWO_BITS)))
}

/// `(x - px) * nx + (y - py) * ny + (z - pz) * nz`.
pub open spec fn half_space_of(nx: Term, ny: Term, nz: Term, px: Term, py: Term, pz: Term) -> Term {
    bin(
        Op::Add,
        bin(
            Op::Add,
            bin(Op::Mul, bin(Op::Sub, Term::X, px), nx),
            bin(Op::Mul, bin(Op::Sub, Term::Y, py), ny),
        ),
        bin(Op::Mul, bin(Op::Sub, Term::Z, pz), nz),
    )
}

fn half_tree(t: Tree) -> (r: Tree)
    ensures
        r@ == bin(Op::Div, t@, Term::Const(TWO_BITS)),
{
    t.div(Tree::from_bits(TWO_BITS))
}

fn excess_tree(axis: Tree, c0: Tree, s: Tree) -> (r: Tree)
    ensures
        r@ == excess(axis@, c0@, s@),
{
    axis.sub(c0).abs().sub(half_tree(s))
}

fn positive_part_tree(t: Tree) -> (r: Tree)
    ensures
        r@ == positive_part(t@),
{
    t.max(Tree::from_bits(ZERO_BITS))
}

/// Shapes: closed-form fields built from the axes and the operators.
impl Tree {
    fn radial_xy() -> (r: Tree)
        ensures
            r@ == radial_xy(),
    {
        Tree::x().square().add(Tree::y().square()).sqrt()
    }

    /// The disc of radius `r` around `center`, in the `xy` plane.
    pub fn circle(r: TreeFloat, center: TreeVec2) -> (t: Tree)
        ensures
            t@ == circle_of(r@, center.x@, center.y@),
    {
        let offset = TreeVec3 { x: center.x, y: center.y, z: Tree::from_bits(ZERO_BITS) };
        Tree::radial_xy().sub(r).moveit(offset)
    }

    /// The disc of radius `ro` around `center`, less the disc of radius `ri`.
    pub fn ring(ro: TreeFloat, ri: TreeFloat, center: TreeVec2) -> (t: Tree)
        ensures
            t@ == difference_of(circle_of(ro@, center.x@, center.y@), circle_of(ri@, center.x@, center.y@)),
    {
        let inner = TreeVec2 { x: center.x.clone(), y: center.y.clone() };
        Tree::circle(ro, center).difference(Tree::circle(ri, inner))
    }

    /// The axis-aligned rectangle with corners `a` (lower) and `b` (upper).
    pub fn rectangle(a: TreeVec2, b: TreeVec2) -> (t: Tree)
        ensures
            t@ == rectangle_of(a.x@, a.y@, b.x@, b.y@),
    {
        let sx = a.x.sub(Tree::x()).max(Tree::x().sub(b.x));
        let sy = a.y.sub(Tree::y()).max(Tree::y().sub(b.y));
        sx.max(sy)
    }

    /// The 2D shape `t` swept along `z` between `zmin` and `zmax`.
    pub fn extrude_z(t: Tree, zmin: TreeFloat, zmax: TreeFloat) -> (r: Tree)
        ensures
            r@ == extruded(t@, zmin@, zmax@),
    {
        let slab = zmin.sub(Tree::z()).max(Tree::z().sub(zmax));
        t.intersection(slab)
    }

    /// The axis-aligned box with corners `a` (lower) and `b` (upper).
    pub fn box_mitered(a: TreeVec3, b: TreeVec3) -> (t: Tree)
        ensures
            t@ == extruded(rectangle_of(a.x@, a.y@, b.x@, b.y@), a.z@, b.z@),
    {
        let base = Tree::rectangle(TreeVec2 { x: a.x, y: a.y }, TreeVec2 { x: b.x, y: b.y });
        Tree::extrude_z(base, a.z, b.z)
    }

    /// The rectangle of the given size around `center`, as an exact distance field.
    pub fn rectangle_centered_exact(size: TreeVec2, center: TreeVec2) -> (t: Tree)
        ensures
            t@ == exact2(excess(Term::X, center.x@, size.x@), excess(Term::Y, center.y@, size.y@)),
    {
        let dx = excess_tree(Tree::x(), center.x, size.x);
        let dy = excess_tree(Tree::y(), center.y, size.y);
        let inside = dx.clone().max(dy.clone()).min(Tree::from_bits(ZERO_BITS));
        let outside = positive_part_tree(dx).square().add(positive_part_tree(dy).square()).sqrt();
        inside.add(outside)
    }

    /// The rectangle with corners `a` (lower) and `b` (upper), as an exact distance field.
    pub fn rectangle_exact(a: TreeVec2, b: TreeVec2) -> (t: Tree)
        ensures
            t@ == exact2(
                excess(Term::X, midpoint(a.x@, b.x@), bin(Op::Sub, b.x@, a.x@)),
                excess(Term::Y, midpoint(a.y@, b.y@), bin(Op::Sub, b.y@, a.y@)),
            ),
    {
        let size = TreeVec2 { x: b.x.clone().sub(a.x.clone()), y: b.y.clone().sub(a.y.clone()) };
        let center = TreeVec2 { x: half_tree(a.x.add(b.x)), y: half_tree(a.y.add(b.y)) };
        Tree::rectangle_centered_exact(size, center)
    }

    /// The box of the given size around `center`, as an exact distance field.
    pub fn box_exact_centered(size: TreeVec3, center: TreeVec3) -> (t: Tree)
        ensures
            t@ == exact3(
                excess(Term::X, center.x@, size.x@),
                excess(Term::Y, center.y@, size.y@),
                excess(Term::Z, center.z@, size.z@),
            ),
    {
        let dx = excess_tree(Tree::x(), center.x, size.x);
        let dy = excess_tree(Tree::y(), center.y, size.y);
        let dz = excess_tree(Tree::z(), center.z, size.z);
        let inside = dx.clone().max(dy.clone().max(dz.clone())).min(Tree::from_bits(ZERO_BITS));
        let outside = positive_part_tree(dx).square().add(positive_part_tree(dy).square()).add(
            positive_part_tree(dz).square(),
        ).sqrt();
        inside.add(outside)
    }

    /// The box with corners `a` (lower) and `b` (upper), as an exact distance field.
    pub fn box_exact(a: TreeVec3, b: TreeVec3) -> (t: Tree)
        ensures
            t@ == exact3(
                excess(Term::X, midpoint(a.x@, b.x@), bin(Op::Sub, b.x@, a.x@)),
                excess(Term::Y, midpoint(a.y@, b.y@), bin(Op::Sub, b.y@, a.y@)),
                excess(Term::Z, midpoint(a.z@, b.z@), bin(Op::Sub, b.z@, a.z@)),
            ),
    {
        let size = TreeVec3 {
            x: b.x.clone().sub(a.x.clone()),
            y: b.y.clone().sub(a.y.clone()),
            z: b.z.clone().sub(a.z.clone()),
        };
        let center = TreeVec3 { x: half_tree(a.x.add(b.x)), y: half_tree(a.y.add(b.y)), z: half_tree(a.z.add(b.z)) };
        Tree::box_exact_centered(size, center)
    }

    /// The box of the given size around `center`, with mitered edges.
    pub fn box_mitered_centered(size: TreeVec3, center: TreeVec3) -> (t: Tree)
        ensures
            t@ == extruded(
                rectangle_of(
                    low_corner(center.x@, size.x@),
                    low_corner(center.y@, size.y@),
                    high_corner(center.x@, size.x@),
                    high_corner(center.y@, size.y@),
                ),
                low_corner(center.z@, size.z@),
                high_corner(center.z@, size.z@),
            ),
    {
        let a = TreeVec3 {
            x: center.x.clone().sub(half_tree(size.x.clone())),
            y: center.y.clone().sub(half_tree(size.y.clone())),
            z: center.z.clone().sub(half_tree(size.z.clone())),
        };
        let b = TreeVec3 {
            x: center.x.add(half_tree(size.x)),
            y: center.y.add(half_tree(size.y)),
            z: center.z.add(half_tree(size.z)),
        };
        Tree::box_mitered(a, b)
    }

    /// The half of space on the side of the plane through `point` that `norm` points
    /// away from: the field `(p - point) . norm`.
    pub fn half_space(norm: TreeVec3, point: TreeVec3) -> (t: Tree)
        ensures
            t@ == half_space_of(norm.x@, norm.y@, norm.z@, point.x@, point.y@, point.z@),
    {
        let fx = Tree::x().sub(point.x).mul(norm.x);
        let fy = Tree::y().sub(point.y).mul(norm.y);
        let fz = Tree::z().sub(point.z).mul(norm.z);
        fx.add(fy).add(fz)
    }

    /// The ball of the given radius around `center`.
    pub fn sphere(radius: TreeFloat, center: TreeVec3) -> (t: Tree)
        ensures
            t@ == sphere_of(radius@, center.x@, center.y@, center.z@),
    {
        let d = Tree::x().square().add(Tree::y().square()).add(Tree::z().square()).sqrt();
        d.sub(radius).moveit(center)
    }

    /// The cylinder of radius `r` and height `h` standing on `base`, along `z`.
    pub fn cylinder_z(r: TreeFloat, h: TreeFloat, base: TreeVec3) -> (t: Tree)
        ensures
            t@ == extruded(
                circle_of(r@, base.x@, base.y@),
                base.z@,
                crate::transforms::bin(Op::Add, base.z@, h@),
            ),
    {
        let disc = Tree::circle(r, TreeVec2 { x: base.x, y: base.y });
        let top = base.z.clone().add(h);
        Tree::extrude_z(disc, base.z, top)
    }

    /// The torus around the `z` axis through `center`, with the tube of radius `ri`
    /// at distance `ro` from that axis.
    pub fn torus_z(ro: TreeFloat, ri: TreeFloat, center: TreeVec3) -> (t: Tree)
        ensures
            t@ == torus_of(ro@, ri@, center.x@, center.y@, center.z@),
    {
        let tube = ro.sub(Tree::radial_xy()).square().add(Tree::z().square()).sqrt();
        tube.sub(ri).moveit(center)
    }
}

} // verus!
