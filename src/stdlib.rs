use vstd::prelude::*;

use crate::op::Op;
use crate::node::Term;
use crate::tree::Tree;

verus! {

/// Bit pattern of the `f32` positive infinity.
pub const INFINITY_BITS: u32 = 0x7f80_0000;

/// Bit pattern of the `f32` positive zero.
pub const ZERO_BITS: u32 = 0;

/// The expressions of a list of trees.
pub open spec fn terms(ts: Seq<Tree>) -> Seq<Term> {
    ts.map_values(|t: Tree| t@)
}

pub open spec fn union_of(a: Term, b: Term) -> Term {
    Term::Binary(Op::Min, Box::new(a), Box::new(b))
}

pub open spec fn intersection_of(a: Term, b: Term) -> Term {
    Term::Binary(Op::Max, Box::new(a), Box::new(b))
}

pub open spec fn inverse_of(a: Term) -> Term {
    Term::Unary(Op::Neg, Box::new(a))
}

pub open spec fn difference_of(a: Term, b: Term) -> Term {
    intersection_of(a, inverse_of(b))
}

/// The field that is outside everywhere.
pub open spec fn emptiness_term() -> Term {
    Term::Const(INFINITY_BITS)
}

/// `acc` united, from left to right, with each of `ts`.
pub open spec fn union_fold(acc: Term, ts: Seq<Term>) -> Term
    decreases ts.len(),
{
    if ts.len() == 0 {
        acc
    } else {
        union_of(union_fold(acc, ts.drop_last()), ts.last())
    }
}

/// `acc` intersected, from left to right, with each of `ts`.
pub open spec fn intersection_fold(acc: Term, ts: Seq<Term>) -> Term
    decreases ts.len(),
{
    if ts.len() == 0 {
        acc
    } else {
        intersection_of(intersection_fold(acc, ts.drop_last()), ts.last())
    }
}

pub open spec fn union_multi_of(a: Term, ts: Seq<Term>) -> Term {
    if ts.len() == 0 {
        emptiness_term()
    } else {
        union_fold(a, ts)
    }
}

pub open spec fn intersection_multi_of(a: Term, ts: Seq<Term>) -> Term {
    if ts.len() == 0 {
        emptiness_term()
    } else {
        intersection_fold(a, ts)
    }
}

pub open spec fn difference_multi_of(a: Term, ts: Seq<Term>) -> Term {
    if ts.len() == 0 {
        a
    } else {
        difference_of(a, union_fold(ts[0], ts.subrange(1, ts.len() as int)))
    }
}

/// 2D point, vector or normal, with a tree for each coordinate.
pub struct TreeVec2 {
    pub x: Tree,
    pub y: Tree,
}

impl TreeVec2 {
    /// A vector of two constants, given as `f32` bit patterns.
    pub fn new(x: u32, y: u32) -> (r: TreeVec2)
        ensures
            r.x@ == Term::Const(x),
            r.y@ == Term::Const(y),
    {
        TreeVec2 { x: Tree::from_bits(x), y: Tree::from_bits(y) }
    }
}

impl Default for TreeVec2 {
    /// The origin.
    fn default() -> (r: TreeVec2)
        ensures
            r.x@ == Term::Const(ZERO_BITS),
            r.y@ == Term::Const(ZERO_BITS),
    {
        TreeVec2::new(ZERO_BITS, ZERO_BITS)
    }
}

/// 3D point, vector or normal, with a tree for each coordinate.
pub struct TreeVec3 {
    pub x: Tree,
    pub y: Tree,
    pub z: Tree,
}

impl TreeVec3 {
    /// A vector of three constants, given as `f32` bit patterns.
    pub fn new(x: u32, y: u32, z: u32) -> (r: TreeVec3)
        ensures
            r.x@ == Term::Const(x),
            r.y@ == Term::Const(y),
            r.z@ == Term::Const(z),
    {
        TreeVec3 { x: Tree::from_bits(x), y: Tree::from_bits(y), z: Tree::from_bits(z) }
    }
}

impl Default for TreeVec3 {
    /// The origin.
    fn default() -> (r: TreeVec3)
        ensures
            r.x@ == Term::Const(ZERO_BITS),
            r.y@ == Term::Const(ZERO_BITS),
            r.z@ == Term::Const(ZERO_BITS),
    {
        TreeVec3::new(ZERO_BITS, ZERO_BITS, ZERO_BITS)
    }
}

/// A collection of trees, as the `*_multi` operations take them.
pub type Trees = Vec<Tree>;

/// Constructive solid geometry.
impl Tree {
    /// The field that is outside everywhere: the constant positive infinity.
    pub fn emptiness() -> (r: Tree)
        ensures
            r@ == emptiness_term(),
    {
        Tree::from_bits(INFINITY_BITS)
    }

    /// The solid inside either of the two: their minimum.
    pub fn union(self, b: Tree) -> (r: Tree)
        ensures
            r@ == union_of(self@, b@),
    {
        self.min(b)
    }

    /// The solid inside both: their maximum.
    pub fn intersection(self, b: Tree) -> (r: Tree)
        ensures
            r@ == intersection_of(self@, b@),
    {
        self.max(b)
    }

    /// The complement: the negated field.
    pub fn inverse(self) -> (r: Tree)
        ensures
            r@ == inverse_of(self@),
    {
        self.neg()
    }

    /// The part of this solid outside `b`.
    pub fn difference(self, b: Tree) -> (r: Tree)
        ensures
            r@ == difference_of(self@, b@),
    {
        self.intersection(b.inverse())
    }

    /// This tree united, from left to right, with each of `trees`.
    fn union_all(self, trees: Trees) -> (r: Tree)
        ensures
            r@ == union_fold(self@, terms(trees@)),
    {
        let ghost all = terms(trees@);
        let mut rest = trees;
        let mut acc = self;
        let ghost k: int = 0;
        while rest.len() > 0
            invariant
                0 <= k <= all.len(),
                terms(rest@) == all.subrange(k, all.len() as int),
                acc@ == union_fold(self@, all.subrange(0, k)),
            decreases rest@.len(),
        {
            let ghost before = rest@;
            let t = rest.remove(0);
            proof {
                assert(terms(before)[0] == t@);
                assert(terms(rest@) =~= terms(before).subrange(1, terms(before).len() as int));
                assert(all.subrange(0, k + 1).drop_last() =~= all.subrange(0, k));
                k = k + 1;
            }
            acc = acc.union(t);
        }
        assert(all.subrange(0, k) =~= all);
        acc
    }

    /// This tree intersected, from left to right, with each of `trees`.
    fn intersection_all(self, trees: Trees) -> (r: Tree)
        ensures
            r@ == intersection_fold(self@, terms(trees@)),
    {
        let ghost all = terms(trees@);
        let mut rest = trees;
        let mut acc = self;
        let ghost k: int = 0;
        while rest.len() > 0
            invariant
                0 <= k <= all.len(),
                terms(rest@) == all.subrange(k, all.len() as int),
                acc@ == intersection_fold(self@, all.subrange(0, k)),
            decreases rest@.len(),
        {
            let ghost before = rest@;
            let t = rest.remove(0);
            proof {
                assert(terms(before)[0] == t@);
                assert(terms(rest@) =~= terms(before).subrange(1, terms(before).len() as int));
                assert(all.subrange(0, k + 1).drop_last() =~= all.subrange(0, k));
                k = k + 1;
            }
            acc = acc.intersection(t);
        }
        assert(all.subrange(0, k) =~= all);
        acc
    }

    /// Union with each of `trees`; with none, the empty field.
    pub fn union_multi(self, trees: Trees) -> (r: Tree)
        ensures
            r@ == union_multi_of(self@, terms(trees@)),
    {
        if trees.len() == 0 {
            Tree::emptiness()
        } else {
            self.union_all(trees)
        }
    }

    /// Intersection with each of `trees`; with none, the empty field.
    pub fn intersection_multi(self, trees: Trees) -> (r: Tree)
        ensures
            r@ == intersection_multi_of(self@, terms(trees@)),
    {
        if trees.len() == 0 {
            Tree::emptiness()
        } else {
            self.intersection_all(trees)
        }
    }

    /// This solid minus the union of `trees`; with none, this tree unchanged.
    pub fn difference_multi(self, trees: Trees) -> (r: Tree)
        ensures
            r@ == difference_multi_of(self@, terms(trees@)),
    {
        if trees.len() == 0 {
            self
        } else {
            let ghost all = terms(trees@);
            let mut rest = trees;
            let first = rest.remove(0);
            proof {
                assert(terms(rest@) =~= all.subrange(1, all.len() as int));
            }
            let cut = first.union_all(rest);
            self.difference(cut)
        }
    }
}

} // verus!
