use vstd::prelude::*;

verus! {

/// Operator tag of an expression node.
#[derive(Clone, Copy, Debug, PartialEq, Eq, Hash, Structural)]
pub enum Op {
    Constant,
    VarX,
    VarY,
    VarZ,
    VarFree,
    ConstVar,
    Square,
    Sqrt,
    Neg,
    Sin,
    Cos,
    Tan,
    Asin,
    Acos,
    Atan,
    Exp,
    Abs,
    Log,
    Recip,
    Add,
    Mul,
    Min,
    Max,
    Sub,
    Div,
    Atan2,
    Pow,
    NthRoot,
    Mod,
    NanFill,
    Compare,
    Oracle,
}

impl Op {
    /// Number of operands that a node with this tag takes.
    pub open spec fn spec_arity(self) -> nat {
        match self {
            Op::Constant | Op::VarX | Op::VarY | Op::VarZ | Op::VarFree | Op::Oracle => 0,
            Op::ConstVar | Op::Square | Op::Sqrt | Op::Neg | Op::Sin | Op::Cos | Op::Tan
            | Op::Asin | Op::Acos | Op::Atan | Op::Exp | Op::Abs | Op::Log | Op::Recip => 1,
            _ => 2,
        }
    }

    /// The numeric code of this tag in the persisted format.
    pub open spec fn spec_code(self) -> u8 {
        match self {
            Op::Constant => 1,
            Op::VarX => 2,
            Op::VarY => 3,
            Op::VarZ => 4,
            Op::VarFree => 5,
            Op::ConstVar => 6,
            Op::Square => 7,
            Op::Sqrt => 8,
            Op::Neg => 9,
            Op::Sin => 10,
            Op::Cos => 11,
            Op::Tan => 12,
            Op::Asin => 13,
            Op::Acos => 14,
            Op::Atan => 15,
            Op::Exp => 16,
            Op::Add => 17,
            Op::Mul => 18,
            Op::Min => 19,
            Op::Max => 20,
            Op::Sub => 21,
            Op::Div => 22,
            Op::Atan2 => 23,
            Op::Pow => 24,
            Op::NthRoot => 25,
            Op::Mod => 26,
            Op::NanFill => 27,
            Op::Abs => 28,
            Op::Recip => 29,
            Op::Log => 30,
            Op::Compare => 31,
            Op::Oracle => 32,
        }
    }

    /// The tag with numeric code `c`, if there is one.
    pub open spec fn spec_from_code(c: u8) -> Option<Op> {
        if exists|op: Op| op.spec_code() == c {
            Some(choose|op: Op| op.spec_code() == c)
        } else {
            None
        }
    }

    pub fn arity(&self) -> (r: usize)
        ensures
            r as nat == self.spec_arity(),
    {
        match self {
            Op::Constant | Op::VarX | Op::VarY | Op::VarZ | Op::VarFree | Op::Oracle => 0,
            Op::ConstVar | Op::Square | Op::Sqrt | Op::Neg | Op::Sin | Op::Cos | Op::Tan
            | Op::Asin | Op::Acos | Op::Atan | Op::Exp | Op::Abs | Op::Log | Op::Recip => 1,
            _ => 2,
        }
    }

    pub fn code(&self) -> (r: u8)
        ensures
            r == self.spec_code(),
    {
        match self {
            Op::Constant => 1,
            Op::VarX => 2,
            Op::VarY => 3,
            Op::VarZ => 4,
            Op::VarFree => 5,
            Op::ConstVar => 6,
            Op::Square => 7,
            Op::Sqrt => 8,
            Op::Neg => 9,
            Op::Sin => 10,
            Op::Cos => 11,
            Op::Tan => 12,
            Op::Asin => 13,
            Op::Acos => 14,
            Op::Atan => 15,
            Op::Exp => 16,
            Op::Add => 17,
            Op::Mul => 18,
            Op::Min => 19,
            Op::Max => 20,
            Op::Sub => 21,
            Op::Div => 22,
            Op::Atan2 => 23,
            Op::Pow => 24,
            Op::NthRoot => 25,
            Op::Mod => 26,
            Op::NanFill => 27,
            Op::Abs => 28,
            Op::Recip => 29,
            Op::Log => 30,
            Op::Compare => 31,
            Op::Oracle => 32,
        }
    }

    /// The tag with numeric code `c`, if there is one.
    pub fn from_code(c: u8) -> (r: Option<Op>)
        ensures
            r.is_some() <==> 1 <= c <= 32,
            r matches Some(op) ==> op.spec_code() == c,
            r == Op::spec_from_code(c),
    {
        let r = match c {
            1 => Some(Op::Constant),
            2 => Some(Op::VarX),
            3 => Some(Op::VarY),
            4 => Some(Op::VarZ),
            5 => Some(Op::VarFree),
            6 => Some(Op::ConstVar),
            7 => Some(Op::Square),
            8 => Some(Op::Sqrt),
            9 => Some(Op::Neg),
            10 => Some(Op::Sin),
            11 => Some(Op::Cos),
            12 => Some(Op::Tan),
            13 => Some(Op::Asin),
            14 => Some(Op::Acos),
            15 => Some(Op::Atan),
            16 => Some(Op::Exp),
            17 => Some(Op::Add),
            18 => Some(Op::Mul),
            19 => Some(Op::Min),
            20 => Some(Op::Max),
            21 => Some(Op::Sub),
            22 => Some(Op::Div),
            23 => Some(Op::Atan2),
            24 => Some(Op::Pow),
            25 => Some(Op::NthRoot),
            26 => Some(Op::Mod),
            27 => Some(Op::NanFill),
            28 => Some(Op::Abs),
            29 => Some(Op::Recip),
            30 => Some(Op::Log),
            31 => Some(Op::Compare),
            32 => Some(Op::Oracle),
            _ => None,
        };
        proof {
            if r.is_some() {
                assert(r.unwrap().spec_code() == c);
                let op = choose|op: Op| op.spec_code() == c;
                lemma_code_injective(op, r.unwrap());
            } else {
                assert forall|op: Op| op.spec_code() != c by {
                    lemma_code_range(op);
                }
            }
        }
        r
    }
}

proof fn lemma_code_range(op: Op)
    ensures
        1 <= op.spec_code() <= 32,
{
}

/// Distinct tags have distinct codes.
pub proof fn lemma_code_injective(a: Op, b: Op)
    ensures
        a.spec_code() == b.spec_code() ==> a == b,
{
}

} // verus!
