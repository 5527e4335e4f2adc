use vstd::prelude::*;

use crate::op::Op;
use crate::shapes::{radial_xyz, sphere_of};
use crate::transforms::{bin, un};
use crate::stdlib::{difference_of, emptiness_term, intersection_of, union_of, INFINITY_BITS};
use crate::node::Term;
use crate::tree::{bind_term, substitute, Tree};

verus! {

/// A meaning for expressions over a domain of values `V`: what constants, free
/// variables and operators stand for.
#[verifier::reject_recursive_types(V)]
pub struct Semantics<V> {
    pub constant: spec_fn(u32) -> V,
    pub variable: spec_fn(u64) -> V,
    pub unary: spec_fn(Op, V) -> V,
    pub binary: spec_fn(Op, V, V) -> V,
}

/// The value of `t` at the point `(px, py, pz)` under the meaning `s`.
pub open spec fn eval<V>(t: Term, s: Semantics<V>, px: V, py: V, pz: V) -> V
    decreases t,
{
    match t {
        Term::Const(c) => (s.constant)(c),
        Term::X => px,
        Term::Y => py,
        Term::Z => pz,
        Term::Var(k) => (s.variable)(k),
        Term::Unary(op, a) => (s.unary)(op, eval(*a, s, px, py, pz)),
        Term::Binary(op, a, b) => (s.binary)(op, eval(*a, s, px, py, pz), eval(*b, s, px, py, pz)),
    }
}

/// Under any meaning in which `min` is idempotent, a shape united with itself has the
/// same field as the shape, at every point.
pub proof fn lemma_union_self<V>(a: Tree, s: Semantics<V>, px: V, py: V, pz: V)
    requires
        forall|v: V| #[trigger] (s.binary)(Op::Min, v, v) == v,
    ensures
        eval(union_of(a@, a@), s, px, py, pz) == eval(a@, s, px, py, pz),
{
    assert((s.binary)(Op::Min, eval(a@, s, px, py, pz), eval(a@, s, px, py, pz)) == eval(a@, s, px, py, pz));
}

/// Under any meaning in which the negated empty field is least for `max`, removing the
/// empty field from a shape leaves the shape's field, at every point.
pub proof fn lemma_difference_emptiness<V>(a: Tree, s: Semantics<V>, px: V, py: V, pz: V)
    requires
        forall|v: V| #[trigger] (s.binary)(Op::Max, v, (s.unary)(Op::Neg, (s.constant)(INFINITY_BITS))) == v,
    ensures
        eval(difference_of(a@, emptiness_term()), s, px, py, pz) == eval(a@, s, px, py, pz),
{
    let v = eval(a@, s, px, py, pz);
    let e = emptiness_term();
    assert(eval(e, s, px, py, pz) == (s.constant)(INFINITY_BITS));
    assert(eval(Term::Unary(Op::Neg, Box::new(e)), s, px, py, pz) == (s.unary)(
        Op::Neg,
        (s.constant)(INFINITY_BITS),
    ));
    assert((s.binary)(Op::Max, v, (s.unary)(Op::Neg, (s.constant)(INFINITY_BITS))) == v);
}

/// Under any meaning in which the empty field is greatest for `max`, a shape
/// intersected with the empty field is the empty field everywhere: nothing is inside.
pub proof fn lemma_intersection_emptiness<V>(a: Tree, s: Semantics<V>, px: V, py: V, pz: V)
    requires
        forall|v: V| #[trigger] (s.binary)(Op::Max, v, (s.constant)(INFINITY_BITS)) == (s.constant)(INFINITY_BITS),
    ensures
        eval(intersection_of(a@, emptiness_term()), s, px, py, pz) == (s.constant)(INFINITY_BITS),
{
    let v = eval(a@, s, px, py, pz);
    assert(eval(emptiness_term(), s, px, py, pz) == (s.constant)(INFINITY_BITS));
    assert((s.binary)(Op::Max, v, (s.constant)(INFINITY_BITS)) == (s.constant)(INFINITY_BITS));
}

/// A sphere whose radius is the free variable `i`, bound to a set of values, is the
/// sphere whose radius is the value at position `i`.
pub proof fn lemma_sphere_radius_bound(i: u64, values: Seq<u32>, cx: u32, cy: u32, cz: u32)
    requires
        (i as int) < values.len(),
    ensures
        bind_term(sphere_of(Term::Var(i), Term::Const(cx), Term::Const(cy), Term::Const(cz)), values)
            == sphere_of(Term::Const(values[i as int]), Term::Const(cx), Term::Const(cy), Term::Const(cz)),
{
    let vx = bin(Op::Sub, Term::X, Term::Const(cx));
    let vy = bin(Op::Sub, Term::Y, Term::Const(cy));
    let vz = bin(Op::Sub, Term::Z, Term::Const(cz));
    let shape = bin(Op::Sub, radial_xyz(), Term::Var(i));
    lemma_bind_substitute(shape, vx, vy, vz, values);
    assert(bind_term(Term::X, values) == Term::X);
    assert(bind_term(Term::Y, values) == Term::Y);
    assert(bind_term(Term::Z, values) == Term::Z);
    assert(bind_term(Term::Const(cx), values) == Term::Const(cx));
    assert(bind_term(Term::Const(cy), values) == Term::Const(cy));
    assert(bind_term(Term::Const(cz), values) == Term::Const(cz));
    assert(bind_term(vx, values) == vx);
    assert(bind_term(vy, values) == vy);
    assert(bind_term(vz, values) == vz);
    let sq = |t: Term| un(Op::Square, t);
    assert(bind_term(sq(Term::X), values) == sq(Term::X));
    assert(bind_term(sq(Term::Y), values) == sq(Term::Y));
    assert(bind_term(sq(Term::Z), values) == sq(Term::Z));
    let xy = bin(Op::Add, sq(Term::X), sq(Term::Y));
    assert(bind_term(xy, values) == xy);
    let xyz = bin(Op::Add, xy, sq(Term::Z));
    assert(bind_term(xyz, values) == xyz);
    assert(bind_term(radial_xyz(), values) == radial_xyz());
    assert(bind_term(Term::Var(i), values) == Term::Const(values[i as int]));
    assert(bind_term(shape, values) == bin(Op::Sub, radial_xyz(), Term::Const(values[i as int])));
}

/// Binding values commutes with substituting the axes.
pub proof fn lemma_bind_substitute(t: Term, x: Term, y: Term, z: Term, values: Seq<u32>)
    ensures
        bind_term(substitute(t, x, y, z), values) == substitute(
            bind_term(t, values),
            bind_term(x, values),
            bind_term(y, values),
            bind_term(z, values),
        ),
    decreases t,
{
    match t {
        Term::Unary(op, a) => {
            lemma_bind_substitute(*a, x, y, z, values);
        },
        Term::Binary(op, a, b) => {
            lemma_bind_substitute(*a, x, y, z, values);
            lemma_bind_substitute(*b, x, y, z, values);
        },
        _ => {},
    }
}

} // verus!
