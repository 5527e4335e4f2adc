use vstd::prelude::*;

use std::collections::HashMap;

use crate::op::Op;

verus! {

/// One entry of a tree's node table. Operands are indices of earlier entries.
#[derive(Clone, Copy, Debug, PartialEq, Eq, Structural)]
pub enum Node {
    /// A constant, as the bit pattern of an IEEE-754 single-precision float.
    Constant(u32),
    VarX,
    VarY,
    VarZ,
    /// A free variable, identified by its token.
    Var(u64),
    Unary(Op, usize),
    Binary(Op, usize, usize),
}

/// The expression that a tree denotes.
pub enum Term {
    Const(u32),
    X,
    Y,
    Z,
    Var(u64),
    Unary(Op, Box<Term>),
    Binary(Op, Box<Term>, Box<Term>),
}

/// The expression denoted by entry `i` of a node table.
pub open spec fn term_at(nodes: Seq<Node>, i: int) -> Term
    decreases i,
{
    if i < 0 || i >= nodes.len() {
        Term::Const(0)
    } else {
        match nodes[i] {
            Node::Constant(c) => Term::Const(c),
            Node::VarX => Term::X,
            Node::VarY => Term::Y,
            Node::VarZ => Term::Z,
            Node::Var(t) => Term::Var(t),
            Node::Unary(op, a) => if (a as int) < i {
                Term::Unary(op, Box::new(term_at(nodes, a as int)))
            } else {
                Term::Const(0)
            },
            Node::Binary(op, a, b) => if (a as int) < i && (b as int) < i {
                Term::Binary(op, Box::new(term_at(nodes, a as int)), Box::new(term_at(nodes, b as int)))
            } else {
                Term::Const(0)
            },
        }
    }
}

/// A node may stand at index `i`: its operands come before it, in the number its tag takes.
pub open spec fn node_wf(n: Node, i: int) -> bool {
    match n {
        Node::Unary(op, a) => op.spec_arity() == 1 && (a as int) < i,
        Node::Binary(op, a, b) => op.spec_arity() == 2 && (a as int) < i && (b as int) < i,
        _ => true,
    }
}

/// A hash-consed node table: operands precede their users, and no node is stored twice.
pub open spec fn nodes_wf(nodes: Seq<Node>) -> bool {
    &&& forall|i: int| 0 <= i < nodes.len() ==> #[trigger] node_wf(nodes[i], i)
    &&& forall|i: int, j: int|
        0 <= i < nodes.len() && 0 <= j < nodes.len() && i != j ==> #[trigger] nodes[i] != #[trigger] nodes[j]
}

/// Entries of a table keep their expression when the table grows at its end.
pub proof fn lemma_term_prefix(s: Seq<Node>, t: Seq<Node>, i: int)
    requires
        s.len() <= t.len(),
        forall|k: int| 0 <= k < s.len() ==> s[k] == t[k],
        0 <= i < s.len(),
    ensures
        term_at(t, i) == term_at(s, i),
    decreases i,
{
    match s[i] {
        Node::Unary(op, a) => {
            if (a as int) < i {
                lemma_term_prefix(s, t, a as int);
            }
        },
        Node::Binary(op, a, b) => {
            if (a as int) < i && (b as int) < i {
                lemma_term_prefix(s, t, a as int);
                lemma_term_prefix(s, t, b as int);
            }
        },
        _ => {},
    }
}

/// Hash-consing: in a well-formed table, two entries that denote the same
/// expression are the same entry.
pub proof fn lemma_hash_consing(nodes: Seq<Node>, i: int, j: int)
    requires
        nodes_wf(nodes),
        0 <= i < nodes.len(),
        0 <= j < nodes.len(),
        term_at(nodes, i) == term_at(nodes, j),
    ensures
        i == j,
    decreases i + j,
{
    assert(node_wf(nodes[i], i));
    assert(node_wf(nodes[j], j));
    match nodes[i] {
        Node::Unary(op, a) => {
            match nodes[j] {
                Node::Unary(op2, a2) => {
                    lemma_hash_consing(nodes, a as int, a2 as int);
                },
                _ => {},
            }
        },
        Node::Binary(op, a, b) => {
            match nodes[j] {
                Node::Binary(op2, a2, b2) => {
                    lemma_hash_consing(nodes, a as int, a2 as int);
                    lemma_hash_consing(nodes, b as int, b2 as int);
                },
                _ => {},
            }
        },
        _ => {},
    }
    assert(nodes[i] == nodes[j]);
}

/// A hash of a node's fields, by which a table finds its entries.
pub open spec fn node_hash(n: Node) -> u64 {
    match n {
        Node::Constant(c) => 1u64 ^ ((c as u64) << 8u64),
        Node::VarX => 2u64,
        Node::VarY => 3u64,
        Node::VarZ => 4u64,
        Node::Var(t) => 5u64 ^ (t << 8u64),
        Node::Unary(op, a) => (op.spec_code() as u64) ^ ((a as u64) << 8u64),
        Node::Binary(op, a, b) => (op.spec_code() as u64) ^ ((a as u64) << 8u64) ^ ((b as u64) << 36u64),
    }
}

fn hash_node(n: &Node) -> (r: u64)
    ensures
        r == node_hash(*n),
{
    match n {
        Node::Constant(c) => 1u64 ^ ((*c as u64) << 8u64),
        Node::VarX => 2u64,
        Node::VarY => 3u64,
        Node::VarZ => 4u64,
        Node::Var(t) => 5u64 ^ (*t << 8u64),
        Node::Unary(op, a) => (op.code() as u64) ^ ((*a as u64) << 8u64),
        Node::Binary(op, a, b) => (op.code() as u64) ^ ((*a as u64) << 8u64) ^ ((*b as u64) << 36u64),
    }
}

/// A hash-consed node table: the nodes, and an index from node hashes to the entries
/// with that hash.
pub struct Table {
    nodes: Vec<Node>,
    index: HashMap<u64, Vec<usize>>,
}

impl View for Table {
    type V = Seq<Node>;

    closed spec fn view(&self) -> Seq<Node> {
        self.nodes@
    }
}

impl Table {
    /// The nodes are well formed and the index lists each entry, exactly under its hash.
    pub closed spec fn wf(&self) -> bool {
        &&& nodes_wf(self.nodes@)
        &&& forall|i: int|
            0 <= i < self.nodes@.len() ==> self.index@.contains_key(node_hash(#[trigger] self.nodes@[i]))
                && exists|m: int|
                0 <= m < self.index@[node_hash(self.nodes@[i])]@.len() && self.index@[node_hash(
                    self.nodes@[i],
                )]@[m] as int == i
        &&& forall|h: u64, j: int|
            self.index@.contains_key(h) && 0 <= j < self.index@[h]@.len() ==> (#[trigger] self.index@[h]@[j]
                as int) < self.nodes@.len() && node_hash(self.nodes@[self.index@[h]@[j] as int]) == h
    }

    pub proof fn lemma_wf(&self)
        requires
            self.wf(),
        ensures
            nodes_wf(self@),
    {
    }

    /// An empty table.
    pub fn new() -> (r: Table)
        ensures
            r.wf(),
            r@ == Seq::<Node>::empty(),
    {
        Table { nodes: Vec::new(), index: HashMap::new() }
    }

    pub fn len(&self) -> (r: usize)
        ensures
            r == self@.len(),
    {
        self.nodes.len()
    }

    pub fn get(&self, i: usize) -> (r: Node)
        requires
            i < self@.len(),
        ensures
            r == self@[i as int],
    {
        self.nodes[i]
    }

    pub fn nodes(&self) -> (r: &Vec<Node>)
        ensures
            r@ == self@,
    {
        &self.nodes
    }

    /// A node is absent when no entry filed under its hash equals it.
    proof fn lemma_absent(&self, n: Node, h: u64)
        requires
            self.wf(),
            h == node_hash(n),
            self.index@.contains_key(h) ==> forall|m: int|
                0 <= m < self.index@[h]@.len() ==> self.nodes@[self.index@[h]@[m] as int] != n,
        ensures
            !self@.contains(n),
    {
        if self@.contains(n) {
            let i = choose|i: int| 0 <= i < self@.len() && self@[i] == n;
            assert(self.index@.contains_key(node_hash(self.nodes@[i])));
            let bucket = self.index@[h]@;
            let m = choose|m: int| 0 <= m < bucket.len() && bucket[m] as int == i;
            assert(self.nodes@[self.index@[h]@[m] as int] == n);
        }
    }

    /// Returns the index of `n` in the table, appending it if it is not there yet.
    pub fn intern(&mut self, n: Node) -> (r: usize)
        requires
            old(self).wf(),
            node_wf(n, old(self)@.len() as int),
        ensures
            final(self).wf(),
            nodes_wf(final(self)@),
            r < final(self)@.len(),
            final(self)@[r as int] == n,
            final(self)@ == (if old(self)@.contains(n) {
                old(self)@
            } else {
                old(self)@.push(n)
            }),
    {
        let h = hash_node(&n);
        match self.index.get(&h) {
            Some(bucket) => {
                let mut k: usize = 0;
                while k < bucket.len()
                    invariant
                        self.wf(),
                        self.index@.contains_key(h),
                        bucket@ == self.index@[h]@,
                        self@ == old(self)@,
                        0 <= k <= bucket@.len(),
                        forall|m: int| 0 <= m < k ==> self.nodes@[bucket@[m] as int] != n,
                    decreases bucket@.len() - k,
                {
                    let j = bucket[k];
                    assert(self.index@[h]@[k as int] == j);
                    if self.nodes[j] == n {
                        assert(self@.contains(n)) by {
                            assert(self@[j as int] == n);
                        }
                        return j;
                    }
                    k = k + 1;
                }
                proof {
                    self.lemma_absent(n, h);
                }
            },
            None => {
                proof {
                    self.lemma_absent(n, h);
                }
            },
        }
        let ghost old_nodes = self.nodes@;
        let ghost old_index = self.index@;
        let idx = self.nodes.len();
        self.nodes.push(n);
        let mut bucket = match self.index.remove(&h) {
            Some(b) => b,
            None => Vec::new(),
        };
        let ghost old_bucket = bucket@;
        bucket.push(idx);
        self.index.insert(h, bucket);
        proof {
            assert forall|k: int| 0 <= k < self.nodes@.len() implies #[trigger] node_wf(self.nodes@[k], k) by {
                if k < idx {
                    assert(node_wf(old_nodes[k], k));
                }
            }
            assert forall|i: int| 0 <= i < self.nodes@.len() implies self.index@.contains_key(
                node_hash(#[trigger] self.nodes@[i]),
            ) && exists|m: int|
                0 <= m < self.index@[node_hash(self.nodes@[i])]@.len() && self.index@[node_hash(
                    self.nodes@[i],
                )]@[m] as int == i by {
                if i < idx {
                    assert(old_nodes[i] == self.nodes@[i]);
                    assert(old_index.contains_key(node_hash(old_nodes[i])));
                    let b = old_index[node_hash(old_nodes[i])]@;
                    let m = choose|m: int| 0 <= m < b.len() && b[m] as int == i;
                    if node_hash(old_nodes[i]) == h {
                        assert(self.index@[h]@[m] as int == i);
                    } else {
                        assert(self.index@[node_hash(old_nodes[i])]@[m] as int == i);
                    }
                } else {
                    assert(self.index@[h]@[old_bucket.len() as int] == idx);
                }
            }
            assert forall|g: u64, j: int|
                self.index@.contains_key(g) && 0 <= j < self.index@[g]@.len() implies (
                #[trigger] self.index@[g]@[j] as int) < self.nodes@.len() && node_hash(
                self.nodes@[self.index@[g]@[j] as int],
            ) == g by {
                if g == h {
                    if j < old_bucket.len() {
                        assert(old_index[h]@[j] == self.index@[g]@[j]);
                    }
                } else {
                    assert(old_index[g]@[j] == self.index@[g]@[j]);
                }
            }
        }
        idx
    }

    /// A copy of the table.
    pub fn copy(&self) -> (r: Table)
        requires
            self.wf(),
        ensures
            r.wf(),
            r@ == self@,
    {
        let mut r = Table::new();
        let mut i: usize = 0;
        while i < self.nodes.len()
            invariant
                self.wf(),
                r.wf(),
                0 <= i <= self@.len(),
                r@ == self@.subrange(0, i as int),
            decreases self@.len() - i,
        {
            let n = self.nodes[i];
            proof {
                assert(node_wf(self@[i as int], i as int));
                if r@.contains(n) {
                    let k = choose|k: int| 0 <= k < r@.len() && r@[k] == n;
                    assert(self@[k] == self@[i as int]);
                }
            }
            r.intern(n);
            i = i + 1;
            proof {
                assert(r@ =~= self@.subrange(0, i as int));
            }
        }
        assert(r@ =~= self@);
        r
    }
}

/// Interns every entry of `src`, in order, into `dst`; returns where each entry of `src` went.
pub fn import(dst: &mut Table, src: &Table) -> (map: Vec<usize>)
    requires
        old(dst).wf(),
        src.wf(),
    ensures
        final(dst).wf(),
        old(dst)@.len() <= final(dst)@.len(),
        forall|k: int| 0 <= k < old(dst)@.len() ==> final(dst)@[k] == old(dst)@[k],
        map@.len() == src@.len(),
        forall|j: int| 0 <= j < src@.len() ==> (#[trigger] map@[j] as int) < final(dst)@.len(),
        forall|j: int| 0 <= j < src@.len() ==> term_at(final(dst)@, #[trigger] map@[j] as int) == term_at(src@, j),
{
    let mut map: Vec<usize> = Vec::new();
    let n = src.len();
    let mut j: usize = 0;
    while j < n
        invariant
            n == src@.len(),
            src.wf(),
            dst.wf(),
            0 <= j <= n,
            old(dst)@.len() <= dst@.len(),
            forall|k: int| 0 <= k < old(dst)@.len() ==> dst@[k] == old(dst)@[k],
            map@.len() == j,
            forall|k: int| 0 <= k < j ==> (#[trigger] map@[k] as int) < dst@.len(),
            forall|k: int| 0 <= k < j ==> term_at(dst@, #[trigger] map@[k] as int) == term_at(src@, k),
        decreases n - j,
    {
        proof {
            src.lemma_wf();
            assert(node_wf(src@[j as int], j as int));
        }
        let node = match src.get(j) {
            Node::Unary(op, a) => Node::Unary(op, map[a]),
            Node::Binary(op, a, b) => Node::Binary(op, map[a], map[b]),
            leaf => leaf,
        };
        let ghost before = dst@;
        let r = dst.intern(node);
        proof {
            assert forall|k: int| 0 <= k < j implies term_at(dst@, #[trigger] map@[k] as int) == term_at(
                src@,
                k,
            ) by {
                lemma_term_prefix(before, dst@, map@[k] as int);
            }
            assert(node_wf(dst@[r as int], r as int));
            match src@[j as int] {
                Node::Unary(op, a) => {
                    lemma_term_prefix(before, dst@, map@[a as int] as int);
                },
                Node::Binary(op, a, b) => {
                    lemma_term_prefix(before, dst@, map@[a as int] as int);
                    lemma_term_prefix(before, dst@, map@[b as int] as int);
                },
                _ => {},
            }
            assert(term_at(dst@, r as int) == term_at(src@, j as int));
        }
        map.push(r);
        j = j + 1;
    }
    map
}

} // verus!
