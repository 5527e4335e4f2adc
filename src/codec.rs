use vstd::prelude::*;

use vstd::arithmetic::div_mod::{lemma_div_multiples_vanish, lemma_fundamental_div_mod, lemma_mod_multiples_basic};

use crate::error::{Error, Result};
use crate::op::Op;
use crate::node::{node_wf, nodes_wf, term_at, Node, Table, Term};
use crate::tree::Tree;

verus! {

/// The eight bytes of `v`, least significant first.
pub open spec fn le_bytes(v: u64) -> Seq<u8> {
    seq![
        (v & 0xff) as u8,
        ((v >> 8u64) & 0xff) as u8,
        ((v >> 16u64) & 0xff) as u8,
        ((v >> 24u64) & 0xff) as u8,
        ((v >> 32u64) & 0xff) as u8,
        ((v >> 40u64) & 0xff) as u8,
        ((v >> 48u64) & 0xff) as u8,
        ((v >> 56u64) & 0xff) as u8,
    ]
}

/// The number whose eight bytes, least significant first, start at `at`.
pub open spec fn le_value(s: Seq<u8>, at: int) -> u64 {
    le_join(s[at], s[at + 1], s[at + 2], s[at + 3], s[at + 4], s[at + 5], s[at + 6], s[at + 7])
}

pub open spec fn le_join(b0: u8, b1: u8, b2: u8, b3: u8, b4: u8, b5: u8, b6: u8, b7: u8) -> u64 {
    (b0 as u64) | ((b1 as u64) << 8u64) | ((b2 as u64) << 16u64) | ((b3 as u64) << 24u64)
        | ((b4 as u64) << 32u64) | ((b5 as u64) << 40u64) | ((b6 as u64) << 48u64) | ((b7 as u64)
        << 56u64)
}

pub proof fn lemma_le_round_trip(v: u64)
    ensures
        le_value(le_bytes(v), 0) == v,
{
    let s = le_bytes(v);
    assert(le_join(
        (v & 0xff) as u8,
        ((v >> 8u64) & 0xff) as u8,
        ((v >> 16u64) & 0xff) as u8,
        ((v >> 24u64) & 0xff) as u8,
        ((v >> 32u64) & 0xff) as u8,
        ((v >> 40u64) & 0xff) as u8,
        ((v >> 48u64) & 0xff) as u8,
        ((v >> 56u64) & 0xff) as u8,
    ) == v) by (bit_vector);
}

/// Version of the persisted format. The format is not archival.
pub const FORMAT_VERSION: u8 = 1;

/// Opcode packing mode of the persisted format: this library writes and reads unpacked opcodes.
pub const PACKED_OPCODES: u8 = 0;

/// Bytes before the first record: tag, version, packing mode and node count.
pub const HEADER_LEN: usize = 14;

/// Bytes of one node record: tag and two operand fields.
pub const RECORD_LEN: usize = 17;

/// The format tag, version and packing mode that open every encoding.
pub open spec fn preamble() -> Seq<u8> {
    seq![0x66u8, 0x72u8, 0x65u8, 0x70u8, FORMAT_VERSION, PACKED_OPCODES]
}

pub open spec fn node_tag(n: Node) -> u8 {
    match n {
        Node::Constant(_) => 1,
        Node::VarX => 2,
        Node::VarY => 3,
        Node::VarZ => 4,
        Node::Var(_) => 5,
        Node::Unary(op, _) => op.spec_code(),
        Node::Binary(op, _, _) => op.spec_code(),
    }
}

pub open spec fn node_first(n: Node) -> u64 {
    match n {
        Node::Constant(c) => c as u64,
        Node::Var(t) => t,
        Node::Unary(_, a) => a as u64,
        Node::Binary(_, a, _) => a as u64,
        _ => 0,
    }
}

pub open spec fn node_second(n: Node) -> u64 {
    match n {
        Node::Binary(_, _, b) => b as u64,
        _ => 0,
    }
}

/// The record of one node: its tag, then its two fields.
pub open spec fn record(n: Node) -> Seq<u8> {
    seq![node_tag(n)] + le_bytes(node_first(n)) + le_bytes(node_second(n))
}

/// The records of a node table, in table order.
pub open spec fn records(nodes: Seq<Node>) -> Seq<u8>
    decreases nodes.len(),
{
    if nodes.len() == 0 {
        Seq::empty()
    } else {
        records(nodes.drop_last()) + record(nodes.last())
    }
}

/// The encoding of a node table with the given root entry.
pub open spec fn encoding(nodes: Seq<Node>, root: int) -> Seq<u8> {
    preamble() + le_bytes(nodes.len() as u64) + records(nodes) + le_bytes(root as u64)
}

/// Where record `i` starts.
pub open spec fn record_start(i: int) -> int {
    HEADER_LEN + RECORD_LEN * i
}

/// The node that record `i` holds, if it is a valid record at that position: a known
/// tag, fields that fit it, and operands that refer to earlier records only.
pub open spec fn parse_node(s: Seq<u8>, i: int) -> Option<Node> {
    let p = record_start(i);
    let tag = s[p];
    let a = le_value(s, p + 1);
    let b = le_value(s, p + 9);
    if tag == 1 {
        if a <= u32::MAX && b == 0 { Some(Node::Constant(a as u32)) } else { None }
    } else if tag == 2 {
        if a == 0 && b == 0 { Some(Node::VarX) } else { None }
    } else if tag == 3 {
        if a == 0 && b == 0 { Some(Node::VarY) } else { None }
    } else if tag == 4 {
        if a == 0 && b == 0 { Some(Node::VarZ) } else { None }
    } else if tag == 5 {
        if b == 0 { Some(Node::Var(a)) } else { None }
    } else {
        match Op::spec_from_code(tag) {
            Some(op) => if op.spec_arity() == 1 && (a as int) < i && b == 0 {
                Some(Node::Unary(op, a as usize))
            } else if op.spec_arity() == 2 && (a as int) < i && (b as int) < i {
                Some(Node::Binary(op, a as usize, b as usize))
            } else {
                None
            },
            None => None,
        }
    }
}

/// The node count that an encoding declares.
pub open spec fn node_count(s: Seq<u8>) -> int {
    le_value(s, 6) as int
}

/// The root entry that an encoding declares.
pub open spec fn root_of(s: Seq<u8>) -> int {
    le_value(s, record_start(node_count(s))) as int
}

/// `s` is a valid encoding: the expected preamble, as many records as declared, each
/// valid at its position, and a root that is one of them.
pub open spec fn well_formed(s: Seq<u8>) -> bool {
    &&& s.len() >= HEADER_LEN + 8
    &&& s.subrange(0, 6) == preamble()
    &&& s.len() == record_start(node_count(s)) + 8
    &&& forall|i: int| 0 <= i < node_count(s) ==> (#[trigger] parse_node(s, i)) is Some
    &&& root_of(s) < node_count(s)
}

/// The node table that a valid encoding holds.
pub open spec fn parsed_nodes(s: Seq<u8>) -> Seq<Node> {
    Seq::new(node_count(s) as nat, |i: int| parse_node(s, i)->Some_0)
}

/// The expression that `s` encodes, if it is a valid encoding.
pub open spec fn decoded(s: Seq<u8>) -> Option<Term> {
    if well_formed(s) {
        Some(term_at(parsed_nodes(s), root_of(s)))
    } else {
        None
    }
}

fn read_u64(s: &Vec<u8>, at: usize) -> (r: u64)
    requires
        at + 8 <= s@.len(),
    ensures
        r == le_value(s@, at as int),
{
    let len = s.len();
    proof {
        assert(at + 8 <= len);
    }
    (s[at] as u64) | ((s[at + 1] as u64) << 8u64) | ((s[at + 2] as u64) << 16u64) | ((s[at + 3] as u64)
        << 24u64) | ((s[at + 4] as u64) << 32u64) | ((s[at + 5] as u64) << 40u64) | ((s[at + 6] as u64)
        << 48u64) | ((s[at + 7] as u64) << 56u64)
}

fn write_u64(out: &mut Vec<u8>, v: u64)
    ensures
        final(out)@ == old(out)@ + le_bytes(v),
{
    out.push((v & 0xff) as u8);
    out.push(((v >> 8u64) & 0xff) as u8);
    out.push(((v >> 16u64) & 0xff) as u8);
    out.push(((v >> 24u64) & 0xff) as u8);
    out.push(((v >> 32u64) & 0xff) as u8);
    out.push(((v >> 40u64) & 0xff) as u8);
    out.push(((v >> 48u64) & 0xff) as u8);
    out.push(((v >> 56u64) & 0xff) as u8);
    assert(final(out)@ =~= old(out)@ + le_bytes(v));
}

fn write_record(out: &mut Vec<u8>, n: Node)
    ensures
        final(out)@ == old(out)@ + record(n),
{
    let ghost start = out@;
    let (tag, a, b): (u8, u64, u64) = match n {
        Node::Constant(c) => (1, c as u64, 0),
        Node::VarX => (2, 0, 0),
        Node::VarY => (3, 0, 0),
        Node::VarZ => (4, 0, 0),
        Node::Var(t) => (5, t, 0),
        Node::Unary(op, a) => (op.code(), a as u64, 0),
        Node::Binary(op, a, b) => (op.code(), a as u64, b as u64),
    };
    out.push(tag);
    write_u64(out, a);
    write_u64(out, b);
    assert(out@ =~= start + record(n));
}

/// Reads record `i`.
fn parse_record(s: &Vec<u8>, i: usize) -> (r: Option<Node>)
    requires
        record_start(i as int) + RECORD_LEN <= s@.len(),
    ensures
        r == parse_node(s@, i as int),
{
    let len = s.len();
    proof {
        assert(record_start(i as int) + RECORD_LEN <= len);
    }
    let p = HEADER_LEN + RECORD_LEN * i;
    let tag = s[p];
    let a = read_u64(s, p + 1);
    let b = read_u64(s, p + 9);
    if tag == 1 {
        if a <= 0xffff_ffff && b == 0 { Some(Node::Constant(a as u32)) } else { None }
    } else if tag == 2 {
        if a == 0 && b == 0 { Some(Node::VarX) } else { None }
    } else if tag == 3 {
        if a == 0 && b == 0 { Some(Node::VarY) } else { None }
    } else if tag == 4 {
        if a == 0 && b == 0 { Some(Node::VarZ) } else { None }
    } else if tag == 5 {
        if b == 0 { Some(Node::Var(a)) } else { None }
    } else {
        match Op::from_code(tag) {
            Some(op) => if op.arity() == 1 && a < i as u64 && b == 0 {
                Some(Node::Unary(op, a as usize))
            } else if op.arity() == 2 && a < i as u64 && b < i as u64 {
                Some(Node::Binary(op, a as usize, b as usize))
            } else {
                None
            },
            None => None,
        }
    }
}

proof fn lemma_records_len(nodes: Seq<Node>)
    ensures
        records(nodes).len() == RECORD_LEN * nodes.len(),
    decreases nodes.len(),
{
    if nodes.len() > 0 {
        lemma_records_len(nodes.drop_last());
    }
}

proof fn lemma_records_at(nodes: Seq<Node>, i: int)
    requires
        0 <= i < nodes.len(),
    ensures
        records(nodes).subrange(RECORD_LEN * i, RECORD_LEN * i + RECORD_LEN) == record(nodes[i]),
    decreases nodes.len(),
{
    let front = nodes.drop_last();
    lemma_records_len(front);
    lemma_records_len(nodes);
    if i < nodes.len() - 1 {
        lemma_records_at(front, i);
        assert(records(nodes).subrange(RECORD_LEN * i, RECORD_LEN * i + RECORD_LEN) =~= records(
            front,
        ).subrange(RECORD_LEN * i, RECORD_LEN * i + RECORD_LEN));
    } else {
        assert(records(nodes).subrange(RECORD_LEN * i, RECORD_LEN * i + RECORD_LEN) =~= record(
            nodes[i],
        ));
    }
}

proof fn lemma_le_value_at(s: Seq<u8>, p: int, v: u64)
    requires
        0 <= p,
        p + 8 <= s.len(),
        s.subrange(p, p + 8) == le_bytes(v),
    ensures
        le_value(s, p) == v,
{
    let t = s.subrange(p, p + 8);
    assert(forall|k: int| 0 <= k < 8 ==> s[p + k] == #[trigger] t[k]);
    assert(le_value(s, p) == le_value(t, 0));
    lemma_le_round_trip(v);
}

proof fn lemma_from_code(op: Op)
    ensures
        Op::spec_from_code(op.spec_code()) == Some(op),
{
    let c = op.spec_code();
    assert(exists|o: Op| o.spec_code() == c);
    let o = choose|o: Op| o.spec_code() == c;
    crate::op::lemma_code_injective(o, op);
}

/// A record written for a node that may stand at position `i` reads back as that node.
proof fn lemma_parse_record(s: Seq<u8>, i: int, n: Node)
    requires
        0 <= i,
        record_start(i) + RECORD_LEN <= s.len(),
        s.subrange(record_start(i), record_start(i) + RECORD_LEN) == record(n),
        node_wf(n, i),
    ensures
        parse_node(s, i) == Some(n),
{
    let p = record_start(i);
    let r = record(n);
    assert(s[p] == r[0]);
    assert(s.subrange(p + 1, p + 9) =~= r.subrange(1, 9));
    assert(r.subrange(1, 9) =~= le_bytes(node_first(n)));
    assert(s.subrange(p + 9, p + 17) =~= r.subrange(9, 17));
    assert(r.subrange(9, 17) =~= le_bytes(node_second(n)));
    lemma_le_value_at(s, p + 1, node_first(n));
    lemma_le_value_at(s, p + 9, node_second(n));
    match n {
        Node::Unary(op, a) => {
            lemma_from_code(op);
        },
        Node::Binary(op, a, b) => {
            lemma_from_code(op);
        },
        _ => {},
    }
}

/// Saving then loading is lossless: the encoding of a well-formed node table decodes
/// to the expression of its root entry.
pub proof fn lemma_round_trip(nodes: Seq<Node>, root: int)
    requires
        nodes_wf(nodes),
        0 <= root < nodes.len(),
        nodes.len() <= u64::MAX,
    ensures
        decoded(encoding(nodes, root)) == Some(term_at(nodes, root)),
{
    let s = encoding(nodes, root);
    let n = nodes.len() as int;
    let recs = records(nodes);
    lemma_records_len(nodes);
    assert(s.len() == record_start(n) + 8);
    assert(s.subrange(0, 6) =~= preamble());
    assert(s.subrange(6, 14) =~= le_bytes(n as u64));
    lemma_le_value_at(s, 6, n as u64);
    assert(node_count(s) == n);
    assert(s.subrange(record_start(n), record_start(n) + 8) =~= le_bytes(root as u64));
    lemma_le_value_at(s, record_start(n), root as u64);
    assert forall|i: int| 0 <= i < n implies #[trigger] parse_node(s, i) == Some(nodes[i]) by {
        lemma_records_at(nodes, i);
        assert(s.subrange(record_start(i), record_start(i) + RECORD_LEN) =~= recs.subrange(
            RECORD_LEN * i,
            RECORD_LEN * i + RECORD_LEN,
        ));
        assert(node_wf(nodes[i], i));
        lemma_parse_record(s, i, nodes[i]);
    }
    assert(well_formed(s));
    assert(parsed_nodes(s) =~= nodes);
}

impl Tree {
    /// The tree's node table in the persisted format.
    ///
    /// The format is a preamble (format tag, version, packing mode), the node count,
    /// one record per node with operands always before their users, and the root's index.
    pub fn save(&self) -> (r: Vec<u8>)
        ensures
            r@ == encoding(self.table(), self.root_index()),
            decoded(r@) == Some(self@),
    {
        self.table_facts();
        let nodes = self.table_ref();
        let mut out: Vec<u8> = Vec::new();
        out.push(0x66);
        out.push(0x72);
        out.push(0x65);
        out.push(0x70);
        out.push(FORMAT_VERSION);
        out.push(PACKED_OPCODES);
        write_u64(&mut out, nodes.len() as u64);
        let ghost start = out@;
        let mut i: usize = 0;
        while i < nodes.len()
            invariant
                0 <= i <= nodes@.len(),
                out@ == start + records(nodes@.subrange(0, i as int)),
            decreases nodes@.len() - i,
        {
            proof {
                assert(nodes@.subrange(0, i + 1).drop_last() =~= nodes@.subrange(0, i as int));
            }
            write_record(&mut out, nodes[i]);
            i = i + 1;
            proof {
                assert(out@ =~= start + records(nodes@.subrange(0, i as int)));
            }
        }
        write_u64(&mut out, self.root_ref() as u64);
        proof {
            assert(nodes@.subrange(0, nodes@.len() as int) =~= nodes@);
            assert(out@ =~= encoding(self.table(), self.root_index()));
            lemma_round_trip(self.table(), self.root_index());
        }
        out
    }

    /// The tree that `bytes` encodes.
    ///
    /// Fails with `FileReadFailed` unless `bytes` is a valid encoding: the expected
    /// preamble (so a mismatched packing mode is refused), as many records as declared,
    /// each with a known tag and operands that refer to earlier records only, and a
    /// root that is one of them.
    pub fn load(bytes: &Vec<u8>) -> (r: Result<Tree>)
        ensures
            r is Ok <==> decoded(bytes@) is Some,
            r matches Ok(t) ==> t@ == decoded(bytes@)->Some_0,
            r is Err ==> r == Err::<Tree, Error>(Error::FileReadFailed),
    {
        let len = bytes.len();
        if len < HEADER_LEN + 8 {
            return Err(Error::FileReadFailed);
        }
        if bytes[0] != 0x66 || bytes[1] != 0x72 || bytes[2] != 0x65 || bytes[3] != 0x70
            || bytes[4] != FORMAT_VERSION || bytes[5] != PACKED_OPCODES {
            proof {
                assert(bytes@.subrange(0, 6) != preamble()) by {
                    if bytes@.subrange(0, 6) == preamble() {
                        assert(bytes@.subrange(0, 6)[0] == bytes@[0]);
                        assert(bytes@.subrange(0, 6)[1] == bytes@[1]);
                        assert(bytes@.subrange(0, 6)[2] == bytes@[2]);
                        assert(bytes@.subrange(0, 6)[3] == bytes@[3]);
                        assert(bytes@.subrange(0, 6)[4] == bytes@[4]);
                        assert(bytes@.subrange(0, 6)[5] == bytes@[5]);
                    }
                }
            }
            return Err(Error::FileReadFailed);
        }
        proof {
            assert(bytes@.subrange(0, 6) =~= preamble());
        }
        let count = read_u64(bytes, 6);
        let body = len - (HEADER_LEN + 8);
        if body % RECORD_LEN != 0 || (body / RECORD_LEN) as u64 != count {
            proof {
                if well_formed(bytes@) {
                    let c = node_count(bytes@);
                    assert(body == RECORD_LEN * c);
                    lemma_mod_multiples_basic(c, RECORD_LEN as int);
                    lemma_div_multiples_vanish(c, RECORD_LEN as int);
                    assert(RECORD_LEN * c == c * RECORD_LEN);
                }
            }
            return Err(Error::FileReadFailed);
        }
        let n = body / RECORD_LEN;
        proof {
            lemma_fundamental_div_mod(body as int, RECORD_LEN as int);
            assert(len == record_start(n as int) + 8);
            assert(node_count(bytes@) == n);
        }
        let ghost table = parsed_nodes(bytes@);
        let mut dst = Table::new();
        let mut map: Vec<usize> = Vec::new();
        let mut i: usize = 0;
        while i < n
            invariant
                len == bytes@.len(),
                len == record_start(n as int) + 8,
                node_count(bytes@) == n,
                table == parsed_nodes(bytes@),
                0 <= i <= n,
                dst.wf(),
                map@.len() == i,
                forall|k: int| 0 <= k < i ==> (#[trigger] parse_node(bytes@, k)) is Some,
                forall|k: int| 0 <= k < i ==> (#[trigger] map@[k] as int) < dst@.len(),
                forall|k: int| 0 <= k < i ==> term_at(dst@, #[trigger] map@[k] as int) == term_at(table, k),
            decreases n - i,
        {
            proof {
                assert(record_start(i as int) + RECORD_LEN <= record_start(n as int)) by (nonlinear_arith)
                    requires
                        i < n,
                ;
            }
            let parsed = parse_record(bytes, i);
            match parsed {
                None => {
                    return Err(Error::FileReadFailed);
                },
                Some(raw) => {
                    let node = match raw {
                        Node::Unary(op, a) => Node::Unary(op, map[a]),
                        Node::Binary(op, a, b) => Node::Binary(op, map[a], map[b]),
                        leaf => leaf,
                    };
                    let ghost before = dst@;
                    let r = dst.intern(node);
                    proof {
                        assert(table[i as int] == raw);
                        assert forall|k: int| 0 <= k < i implies term_at(dst@, #[trigger] map@[k] as int)
                            == term_at(table, k) by {
                            crate::node::lemma_term_prefix(before, dst@, map@[k] as int);
                        }
                        assert(node_wf(dst@[r as int], r as int));
                        match raw {
                            Node::Unary(op, a) => {
                                crate::node::lemma_term_prefix(before, dst@, map@[a as int] as int);
                            },
                            Node::Binary(op, a, b) => {
                                crate::node::lemma_term_prefix(before, dst@, map@[a as int] as int);
                                crate::node::lemma_term_prefix(before, dst@, map@[b as int] as int);
                            },
                            _ => {},
                        }
                        assert(term_at(dst@, r as int) == term_at(table, i as int));
                    }
                    map.push(r);
                    i = i + 1;
                },
            }
        }
        let root = read_u64(bytes, HEADER_LEN + RECORD_LEN * n);
        if root >= n as u64 {
            return Err(Error::FileReadFailed);
        }
        let r = map[root as usize];
        Ok(Tree::from_table(dst, r))
    }
}

} // verus!
