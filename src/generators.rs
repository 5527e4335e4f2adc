use vstd::prelude::*;

use crate::op::Op;
use crate::stdlib::{union_of, TreeVec2, TreeVec3, ZERO_BITS};
use crate::transforms::{bin, moved};
use crate::node::Term;
use crate::tree::{Tree, TreeFloat};

verus! {

/// The offset of copy `i` (from 1) of an array with spacing `d`: `d` added `i` times.
pub open spec fn offset(d: Term, i: nat) -> Term
    decreases i,
{
    if i <= 1 {
        d
    } else {
        bin(Op::Add, offset(d, (i - 1) as nat), d)
    }
}

/// `shape` united, from left to right, with its copies moved by `offset(d, i)` along
/// the axis that `along` picks, for `i` from 1 to `n - 1`.
pub open spec fn array_of(shape: Term, n: nat, d: Term, along: int) -> Term
    decreases n,
{
    if n <= 1 {
        shape
    } else {
        let k = (n - 1) as nat;
        let o = offset(d, k);
        let z = Term::Const(ZERO_BITS);
        union_of(
            array_of(shape, k, d, along),
            if along == 0 {
                moved(shape, o, z, z)
            } else if along == 1 {
                moved(shape, z, o, z)
            } else {
                moved(shape, z, z, o)
            },
        )
    }
}

/// Generators: arrays of copies of a shape.
impl Tree {
    /// `shape` and its copies moved by `d`, `d + d`, ... along the axis `along`
    /// (0 for `x`, 1 for `y`, 2 for `z`), `n` in all.
    fn array_along(shape: Tree, n: u32, d: TreeFloat, along: u8) -> (r: Tree)
        ensures
            r@ == array_of(shape@, n as nat, d@, along as int),
    {
        let mut out = shape.clone();
        let mut off = d.clone();
        let mut i: u32 = 1;
        while i < n
            invariant
                1 <= i,
                n <= 1 ==> i == 1,
                n > 1 ==> i <= n,
                out@ == array_of(shape@, i as nat, d@, along as int),
                off@ == offset(d@, i as nat),
            decreases n - i,
        {
            let v = if along == 0 {
                TreeVec3 { x: off.clone(), y: Tree::from_bits(ZERO_BITS), z: Tree::from_bits(ZERO_BITS) }
            } else if along == 1 {
                TreeVec3 { x: Tree::from_bits(ZERO_BITS), y: off.clone(), z: Tree::from_bits(ZERO_BITS) }
            } else {
                TreeVec3 { x: Tree::from_bits(ZERO_BITS), y: Tree::from_bits(ZERO_BITS), z: off.clone() }
            };
            out = out.union(shape.clone().moveit(v));
            off = off.add(d.clone());
            i = i + 1;
        }
        out
    }

    /// `nx` copies of `shape` along `x`, copy `i` moved by `dx` added `i` times.
    pub fn array_x(shape: Tree, nx: u32, dx: TreeFloat) -> (r: Tree)
        ensures
            r@ == array_of(shape@, nx as nat, dx@, 0),
    {
        Tree::array_along(shape, nx, dx, 0)
    }

    /// An `nx` by `ny` grid of copies of `shape` in the `xy` plane, spaced by `delta`.
    pub fn array_xy(shape: Tree, nx: u32, ny: u32, delta: TreeVec2) -> (r: Tree)
        ensures
            r@ == array_of(array_of(shape@, nx as nat, delta.x@, 0), ny as nat, delta.y@, 1),
    {
        let row = Tree::array_along(shape, nx, delta.x, 0);
        Tree::array_along(row, ny, delta.y, 1)
    }

    /// An `nx` by `ny` by `nz` grid of copies of `shape`, spaced by `delta`.
    pub fn array_xyz(shape: Tree, nx: u32, ny: u32, nz: u32, delta: TreeVec3) -> (r: Tree)
        ensures
            r@ == array_of(
                array_of(array_of(shape@, nx as nat, delta.x@, 0), ny as nat, delta.y@, 1),
                nz as nat,
                delta.z@,
                2,
            ),
    {
        let row = Tree::array_along(shape, nx, delta.x, 0);
        let layer = Tree::array_along(row, ny, delta.y, 1);
        Tree::array_along(layer, nz, delta.z, 2)
    }
}

} // verus!
