use vstd::prelude::*;

use crate::error::{Error, Result};
use crate::node::{import, lemma_hash_consing, lemma_term_prefix, node_wf, nodes_wf, term_at, Node, Table, Term};
use crate::op::Op;
use vstd::std_specs::cmp::PartialEqSpec;

use std::sync::Arc;

verus! {

/// Relies on `Arc::try_unwrap`: the table itself when this is its only reference,
/// else the same `Arc` back.
#[verifier::external_body]
fn try_unwrap_table(shared: Arc<Table>) -> (r: core::result::Result<Table, Arc<Table>>)
    ensures
        match r {
            Ok(table) => table == *shared,
            Err(back) => back == shared,
        },
{
    Arc::try_unwrap(shared)
}

/// A scalar field over space, as a hash-consed table of expression nodes and a root entry.
///
/// The table is shared between clones: cloning a tree takes a new reference to it.
pub struct Tree {
    nodes: Arc<Table>,
    root: usize,
}

impl View for Tree {
    type V = Term;

    closed spec fn view(&self) -> Term {
        term_at(self.nodes@, self.root as int)
    }
}

/// A tree, where a number is expected.
pub type TreeFloat = Tree;

impl Tree {
    #[verifier::type_invariant]
    spec fn inv(self) -> bool {
        &&& self.nodes.wf()
        &&& self.root < self.nodes@.len()
    }

    fn leaf(n: Node) -> (r: Tree)
        requires
            node_wf(n, 0),
        ensures
            r@ == term_at(seq![n], 0),
    {
        let mut nodes = Table::new();
        let root = nodes.intern(n);
        assert(nodes@ =~= seq![n]);
        Tree { nodes: Arc::new(nodes), root }
    }

    /// The field `x`.
    pub fn x() -> (r: Tree)
        ensures
            r@ == Term::X,
    {
        Tree::leaf(Node::VarX)
    }

    /// The field `y`.
    pub fn y() -> (r: Tree)
        ensures
            r@ == Term::Y,
    {
        Tree::leaf(Node::VarY)
    }

    /// The field `z`.
    pub fn z() -> (r: Tree)
        ensures
            r@ == Term::Z,
    {
        Tree::leaf(Node::VarZ)
    }

    /// A constant field, given as the bit pattern of an `f32`.
    pub fn from_bits(bits: u32) -> (r: Tree)
        ensures
            r@ == Term::Const(bits),
    {
        Tree::leaf(Node::Constant(bits))
    }

    /// The free variable with the given token.
    pub fn free_variable(token: u64) -> (r: Tree)
        ensures
            r@ == Term::Var(token),
    {
        Tree::leaf(Node::Var(token))
    }

    /// Applies a one-operand operator to this tree.
    pub fn unary(&self, op: Op) -> (r: Tree)
        requires
            op.spec_arity() == 1,
        ensures
            r@ == Term::Unary(op, Box::new(self@)),
    {
        proof {
            use_type_invariant(self);
        }
        let mut nodes = self.nodes.copy();
        let ghost before = nodes@;
        let root = nodes.intern(Node::Unary(op, self.root));
        proof {
            lemma_term_prefix(before, nodes@, self.root as int);
            assert(node_wf(nodes@[root as int], root as int));
        }
        Tree { nodes: Arc::new(nodes), root }
    }

    /// Applies a two-operand operator to this tree and `rhs`.
    pub fn binary(self, op: Op, rhs: Tree) -> (r: Tree)
        requires
            op.spec_arity() == 2,
        ensures
            r@ == Term::Binary(op, Box::new(self@), Box::new(rhs@)),
    {
        proof {
            use_type_invariant(&self);
            use_type_invariant(&rhs);
        }
        let Tree { nodes, root } = self;
        let mut nodes = match try_unwrap_table(nodes) {
            Ok(table) => table,
            Err(shared) => shared.copy(),
        };
        let ghost start = nodes@;
        let map = import(&mut nodes, &rhs.nodes);
        let b = map[rhs.root];
        let ghost before = nodes@;
        proof {
            lemma_term_prefix(start, nodes@, root as int);
        }
        let r = nodes.intern(Node::Binary(op, root, b));
        proof {
            lemma_term_prefix(before, nodes@, root as int);
            lemma_term_prefix(before, nodes@, b as int);
            assert(node_wf(nodes@[r as int], r as int));
        }
        Tree { nodes: Arc::new(nodes), root: r }
    }

    /// Whether the tree is a free variable.
    pub fn is_variable(&self) -> (r: bool)
        ensures
            r == (self@ is Var),
    {
        proof {
            use_type_invariant(self);
        }
        match self.nodes.get(self.root) {
            Node::Var(_) => true,
            _ => false,
        }
    }

    /// The value of a constant tree, as the bit pattern of an `f32`.
    pub fn as_f32(&self) -> (r: Result<u32>)
        ensures
            r == (match self@ {
                Term::Const(c) => Ok(c),
                _ => Err(Error::TreeIsNotConstant),
            }),
    {
        proof {
            use_type_invariant(self);
            self.nodes.lemma_wf();
            assert(node_wf(self.nodes@[self.root as int], self.root as int));
        }
        match self.nodes.get(self.root) {
            Node::Constant(c) => Ok(c),
            _ => Err(Error::TreeIsNotConstant),
        }
    }
}

/// Operators on trees.
impl Tree {
    pub fn square(&self) -> (r: Tree)
        ensures
            r@ == Term::Unary(Op::Square, Box::new(self@)),
    {
        self.unary(Op::Square)
    }

    pub fn sqrt(&self) -> (r: Tree)
        ensures
            r@ == Term::Unary(Op::Sqrt, Box::new(self@)),
    {
        self.unary(Op::Sqrt)
    }

    pub fn neg(&self) -> (r: Tree)
        ensures
            r@ == Term::Unary(Op::Neg, Box::new(self@)),
    {
        self.unary(Op::Neg)
    }

    pub fn sin(&self) -> (r: Tree)
        ensures
            r@ == Term::Unary(Op::Sin, Box::new(self@)),
    {
        self.unary(Op::Sin)
    }

    pub fn cos(&self) -> (r: Tree)
        ensures
            r@ == Term::Unary(Op::Cos, Box::new(self@)),
    {
        self.unary(Op::Cos)
    }

    pub fn tan(&self) -> (r: Tree)
        ensures
            r@ == Term::Unary(Op::Tan, Box::new(self@)),
    {
        self.unary(Op::Tan)
    }

    pub fn asin(&self) -> (r: Tree)
        ensures
            r@ == Term::Unary(Op::Asin, Box::new(self@)),
    {
        self.unary(Op::Asin)
    }

    pub fn acos(&self) -> (r: Tree)
        ensures
            r@ == Term::Unary(Op::Acos, Box::new(self@)),
    {
        self.unary(Op::Acos)
    }

    pub fn atan(&self) -> (r: Tree)
        ensures
            r@ == Term::Unary(Op::Atan, Box::new(self@)),
    {
        self.unary(Op::Atan)
    }

    pub fn exp(&self) -> (r: Tree)
        ensures
            r@ == Term::Unary(Op::Exp, Box::new(self@)),
    {
        self.unary(Op::Exp)
    }

    pub fn abs(&self) -> (r: Tree)
        ensures
            r@ == Term::Unary(Op::Abs, Box::new(self@)),
    {
        self.unary(Op::Abs)
    }

    pub fn log(&self) -> (r: Tree)
        ensures
            r@ == Term::Unary(Op::Log, Box::new(self@)),
    {
        self.unary(Op::Log)
    }

    pub fn recip(&self) -> (r: Tree)
        ensures
            r@ == Term::Unary(Op::Recip, Box::new(self@)),
    {
        self.unary(Op::Recip)
    }

    pub fn add(self, rhs: Tree) -> (r: Tree)
        ensures
            r@ == Term::Binary(Op::Add, Box::new(self@), Box::new(rhs@)),
    {
        self.binary(Op::Add, rhs)
    }

    pub fn mul(self, rhs: Tree) -> (r: Tree)
        ensures
            r@ == Term::Binary(Op::Mul, Box::new(self@), Box::new(rhs@)),
    {
        self.binary(Op::Mul, rhs)
    }

    pub fn min(self, rhs: Tree) -> (r: Tree)
        ensures
            r@ == Term::Binary(Op::Min, Box::new(self@), Box::new(rhs@)),
    {
        self.binary(Op::Min, rhs)
    }

    pub fn max(self, rhs: Tree) -> (r: Tree)
        ensures
            r@ == Term::Binary(Op::Max, Box::new(self@), Box::new(rhs@)),
    {
        self.binary(Op::Max, rhs)
    }

    pub fn sub(self, rhs: Tree) -> (r: Tree)
        ensures
            r@ == Term::Binary(Op::Sub, Box::new(self@), Box::new(rhs@)),
    {
        self.binary(Op::Sub, rhs)
    }

    pub fn div(self, rhs: Tree) -> (r: Tree)
        ensures
            r@ == Term::Binary(Op::Div, Box::new(self@), Box::new(rhs@)),
    {
        self.binary(Op::Div, rhs)
    }

    pub fn atan2(self, other: Tree) -> (r: Tree)
        ensures
            r@ == Term::Binary(Op::Atan2, Box::new(self@), Box::new(other@)),
    {
        self.binary(Op::Atan2, other)
    }

    pub fn pow(self, exp: Tree) -> (r: Tree)
        ensures
            r@ == Term::Binary(Op::Pow, Box::new(self@), Box::new(exp@)),
    {
        self.binary(Op::Pow, exp)
    }

    pub fn nth_root(self, n: Tree) -> (r: Tree)
        ensures
            r@ == Term::Binary(Op::NthRoot, Box::new(self@), Box::new(n@)),
    {
        self.binary(Op::NthRoot, n)
    }

    pub fn rem(self, rhs: Tree) -> (r: Tree)
        ensures
            r@ == Term::Binary(Op::Mod, Box::new(self@), Box::new(rhs@)),
    {
        self.binary(Op::Mod, rhs)
    }

    pub fn nan_fill(self, rhs: Tree) -> (r: Tree)
        ensures
            r@ == Term::Binary(Op::NanFill, Box::new(self@), Box::new(rhs@)),
    {
        self.binary(Op::NanFill, rhs)
    }

    pub fn compare(self, rhs: Tree) -> (r: Tree)
        ensures
            r@ == Term::Binary(Op::Compare, Box::new(self@), Box::new(rhs@)),
    {
        self.binary(Op::Compare, rhs)
    }
}

impl Clone for Tree {
    fn clone(&self) -> (r: Tree)
        ensures
            r@ == self@,
    {
        proof {
            use_type_invariant(self);
        }
        Tree { nodes: Arc::clone(&self.nodes), root: self.root }
    }
}

/// Two trees are equal when they denote the same expression. Since node tables are
/// hash-consed, this is decided by interning one tree into the other's table and
/// comparing the two root entries.
impl PartialEq for Tree {
    fn eq(&self, other: &Tree) -> (r: bool)
        ensures
            r == (self@ == other@),
    {
        proof {
            use_type_invariant(self);
            use_type_invariant(other);
        }
        let mut nodes = self.nodes.copy();
        let ghost start = nodes@;
        let map = import(&mut nodes, &other.nodes);
        let o = map[other.root];
        proof {
            lemma_term_prefix(start, nodes@, self.root as int);
            nodes.lemma_wf();
            if term_at(nodes@, o as int) == term_at(nodes@, self.root as int) {
                lemma_hash_consing(nodes@, o as int, self.root as int);
            }
        }
        o == self.root
    }
}

impl vstd::std_specs::cmp::PartialEqSpecImpl for Tree {
    open spec fn obeys_eq_spec() -> bool {
        true
    }

    open spec fn eq_spec(&self, other: &Tree) -> bool {
        self@ == other@
    }
}

impl Eq for Tree {
}

/// Equality of trees is an equivalence: reflexive, symmetric and transitive.
pub proof fn lemma_eq_equivalence(a: Tree, b: Tree, c: Tree)
    ensures
        a.eq_spec(&a),
        a.eq_spec(&b) == b.eq_spec(&a),
        a.eq_spec(&b) && b.eq_spec(&c) ==> a.eq_spec(&c),
{
}

/// `t` with the axes `x`, `y` and `z` replaced by the given expressions.
pub open spec fn substitute(t: Term, x: Term, y: Term, z: Term) -> Term
    decreases t,
{
    match t {
        Term::X => x,
        Term::Y => y,
        Term::Z => z,
        Term::Unary(op, a) => Term::Unary(op, Box::new(substitute(*a, x, y, z))),
        Term::Binary(op, a, b) => Term::Binary(
            op,
            Box::new(substitute(*a, x, y, z)),
            Box::new(substitute(*b, x, y, z)),
        ),
        _ => t,
    }
}

impl Tree {
    /// This field with its coordinates replaced: the value at `(px, py, pz)` is this
    /// field's value at `(x(p), y(p), z(p))`.
    pub fn remap(&self, x: &Tree, y: &Tree, z: &Tree) -> (r: Tree)
        ensures
            r@ == substitute(self@, x@, y@, z@),
    {
        proof {
            use_type_invariant(self);
            use_type_invariant(x);
            use_type_invariant(y);
            use_type_invariant(z);
        }
        let mut dst = x.nodes.copy();
        let ix = x.root;
        let ghost d0 = dst@;
        let my = import(&mut dst, &y.nodes);
        let iy = my[y.root];
        let ghost d1 = dst@;
        let mz = import(&mut dst, &z.nodes);
        let iz = mz[z.root];
        proof {
            lemma_term_prefix(d0, d1, ix as int);
            lemma_term_prefix(d0, dst@, ix as int);
            lemma_term_prefix(d1, dst@, iy as int);
        }
        let src = &self.nodes;
        let ghost xt = x@;
        let ghost yt = y@;
        let ghost zt = z@;
        let mut map: Vec<usize> = Vec::new();
        let n = src.len();
        let mut j: usize = 0;
        while j < n
            invariant
                n == src@.len(),
                src.wf(),
                dst.wf(),
                0 <= j <= n,
                (ix as int) < dst@.len(),
                (iy as int) < dst@.len(),
                (iz as int) < dst@.len(),
                term_at(dst@, ix as int) == xt,
                term_at(dst@, iy as int) == yt,
                term_at(dst@, iz as int) == zt,
                map@.len() == j,
                forall|k: int| 0 <= k < j ==> (#[trigger] map@[k] as int) < dst@.len(),
                forall|k: int|
                    0 <= k < j ==> term_at(dst@, #[trigger] map@[k] as int) == substitute(
                        term_at(src@, k),
                        xt,
                        yt,
                        zt,
                    ),
            decreases n - j,
        {
            proof {
                src.lemma_wf();
                assert(node_wf(src@[j as int], j as int));
            }
            let ghost before = dst@;
            let r = match src.get(j) {
                Node::VarX => ix,
                Node::VarY => iy,
                Node::VarZ => iz,
                Node::Unary(op, a) => dst.intern(Node::Unary(op, map[a])),
                Node::Binary(op, a, b) => dst.intern(Node::Binary(op, map[a], map[b])),
                leaf => dst.intern(leaf),
            };
            proof {
                assert(forall|k: int| 0 <= k < before.len() ==> before[k] == dst@[k]);
                assert forall|k: int| 0 <= k < j implies term_at(dst@, #[trigger] map@[k] as int)
                    == substitute(term_at(src@, k), xt, yt, zt) by {
                    lemma_term_prefix(before, dst@, map@[k] as int);
                }
                lemma_term_prefix(before, dst@, ix as int);
                lemma_term_prefix(before, dst@, iy as int);
                lemma_term_prefix(before, dst@, iz as int);
                dst.lemma_wf();
                assert(node_wf(dst@[r as int], r as int));
                match src@[j as int] {
                    Node::Unary(op, a) => {
                        lemma_term_prefix(before, dst@, map@[a as int] as int);
                    },
                    Node::Binary(op, a, b) => {
                        lemma_term_prefix(before, dst@, map@[a as int] as int);
                        lemma_term_prefix(before, dst@, map@[b as int] as int);
                    },
                    _ => {},
                }
                assert(term_at(dst@, r as int) == substitute(term_at(src@, j as int), xt, yt, zt));
            }
            map.push(r);
            j = j + 1;
        }
        let root = map[self.root];
        Tree { nodes: Arc::new(dst), root }
    }
}

/// `t` with each free variable whose token is a position of `values` replaced by the
/// constant at that position.
pub open spec fn bind_term(t: Term, values: Seq<u32>) -> Term
    decreases t,
{
    match t {
        Term::Var(k) => if (k as int) < values.len() {
            Term::Const(values[k as int])
        } else {
            t
        },
        Term::Unary(op, a) => Term::Unary(op, Box::new(bind_term(*a, values))),
        Term::Binary(op, a, b) => Term::Binary(
            op,
            Box::new(bind_term(*a, values)),
            Box::new(bind_term(*b, values)),
        ),
        _ => t,
    }
}

impl Tree {
    /// This tree with the free variable of token `k` replaced by the constant `values[k]`,
    /// for each position `k` of `values`.
    pub fn bind(&self, values: &Vec<u32>) -> (r: Tree)
        ensures
            r@ == bind_term(self@, values@),
    {
        proof {
            use_type_invariant(self);
        }
        let src = &self.nodes;
        let mut dst = Table::new();
        let mut map: Vec<usize> = Vec::new();
        let n = src.len();
        let mut j: usize = 0;
        while j < n
            invariant
                n == src@.len(),
                src.wf(),
                dst.wf(),
                0 <= j <= n,
                map@.len() == j,
                forall|k: int| 0 <= k < j ==> (#[trigger] map@[k] as int) < dst@.len(),
                forall|k: int|
                    0 <= k < j ==> term_at(dst@, #[trigger] map@[k] as int) == bind_term(
                        term_at(src@, k),
                        values@,
                    ),
            decreases n - j,
        {
            proof {
                src.lemma_wf();
                assert(node_wf(src@[j as int], j as int));
            }
            let ghost before = dst@;
            let node = match src.get(j) {
                Node::Var(k) => if k < values.len() as u64 {
                    Node::Constant(values[k as usize])
                } else {
                    Node::Var(k)
                },
                Node::Unary(op, a) => Node::Unary(op, map[a]),
                Node::Binary(op, a, b) => Node::Binary(op, map[a], map[b]),
                leaf => leaf,
            };
            let r = dst.intern(node);
            proof {
                assert forall|k: int| 0 <= k < j implies term_at(dst@, #[trigger] map@[k] as int)
                    == bind_term(term_at(src@, k), values@) by {
                    lemma_term_prefix(before, dst@, map@[k] as int);
                }
                assert(node_wf(dst@[r as int], r as int));
                match src@[j as int] {
                    Node::Unary(op, a) => {
                        lemma_term_prefix(before, dst@, map@[a as int] as int);
                    },
                    Node::Binary(op, a, b) => {
                        lemma_term_prefix(before, dst@, map@[a as int] as int);
                        lemma_term_prefix(before, dst@, map@[b as int] as int);
                    },
                    _ => {},
                }
                assert(term_at(dst@, r as int) == bind_term(term_at(src@, j as int), values@));
            }
            map.push(r);
            j = j + 1;
        }
        let root = map[self.root];
        Tree { nodes: Arc::new(dst), root }
    }
}

/// Access to the node table, for the modules that read and write tables.
impl Tree {
    /// The node table.
    pub closed spec fn table(&self) -> Seq<Node> {
        self.nodes@
    }

    /// The index of the root entry.
    pub closed spec fn root_index(&self) -> int {
        self.root as int
    }

    /// A tree denotes the expression of its root entry, in a well-formed table.
    pub(crate) fn table_facts(&self)
        ensures
            nodes_wf(self.table()),
            0 <= self.root_index() < self.table().len(),
            self@ == term_at(self.table(), self.root_index()),
    {
        proof {
            use_type_invariant(self);
            self.nodes.lemma_wf();
        }
    }

    pub(crate) fn from_table(nodes: Table, root: usize) -> (r: Tree)
        requires
            nodes.wf(),
            root < nodes@.len(),
        ensures
            r.table() == nodes@,
            r.root_index() == root,
            r@ == term_at(nodes@, root as int),
    {
        Tree { nodes: Arc::new(nodes), root }
    }

    pub(crate) fn table_ref(&self) -> (r: &Vec<Node>)
        ensures
            r@ == self.table(),
    {
        self.nodes.nodes()
    }

    pub(crate) fn root_ref(&self) -> (r: usize)
        ensures
            r as int == self.root_index(),
    {
        self.root
    }
}

} // verus!
