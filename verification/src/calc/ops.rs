use vstd::prelude::*;
use super::token::{Token, token_text};

verus! {

/// Whether the text of token `t` in `text` equals `lit`.
pub fn text_is(text: &[u8], t: Token, lit: &[u8]) -> (r: bool)
    requires
        t.start <= t.end <= text@.len(),
    ensures
        r == (token_text(text@, t) =~= lit@),
{
    if t.end - t.start != lit.len() {
        return false;
    }
    let mut k: usize = 0;
    while k < lit.len()
        invariant
            t.start <= t.end <= text@.len(),
            t.end - t.start == lit@.len(),
            0 <= k <= lit@.len(),
            forall|m: int| 0 <= m < k ==> text@[t.start + m] == lit@[m],
        decreases lit.len() - k,
    {
        if text[t.start + k] != lit[k] {
            assert(token_text(text@, t)[k as int] != lit@[k as int]);
            return false;
        }
        k = k + 1;
    }
    assert(token_text(text@, t) =~= lit@);
    true
}

/// A binary operator kind.
#[derive(Clone, Copy, PartialEq, Eq, Debug, Structural)]
pub enum BinaryOp {
    Add,
    Sub,
    Mul,
    Div,
    Mod,
    Pow,
}

/// The binary operator written as `t`, if any.
pub open spec fn binary_op_of(t: Seq<u8>) -> Option<BinaryOp> {
    if t =~= seq![0x2bu8] {
        Some(BinaryOp::Add)
    } else if t =~= seq![0x2du8] {
        Some(BinaryOp::Sub)
    } else if t =~= seq![0x2au8] {
        Some(BinaryOp::Mul)
    } else if t =~= seq![0x2fu8] {
        Some(BinaryOp::Div)
    } else if t =~= seq![0x25u8] || t =~= seq![0x6du8, 0x6fu8, 0x64u8] {
        Some(BinaryOp::Mod)
    } else if t =~= seq![0x5eu8] || t =~= seq![0x70u8, 0x6fu8, 0x77u8] {
        Some(BinaryOp::Pow)
    } else {
        None
    }
}

/// The priority of a binary operator; higher binds tighter.
pub open spec fn priority_of(op: BinaryOp) -> int {
    match op {
        BinaryOp::Add | BinaryOp::Sub => 1,
        BinaryOp::Mul | BinaryOp::Div | BinaryOp::Mod => 2,
        BinaryOp::Pow => 3,
    }
}

impl BinaryOp {
    /// The priority for the operator.
    /// Relevant for order-of-operations.
    pub fn priority(self) -> (r: isize)
        ensures
            r == priority_of(self),
    {
        match self {
            BinaryOp::Add | BinaryOp::Sub => 1,
            BinaryOp::Mul | BinaryOp::Div | BinaryOp::Mod => 2,
            BinaryOp::Pow => 3,
        }
    }

    /// Tries to get an operator from a token of `text`.
    pub fn from_token(text: &[u8], t: Token) -> (r: Option<BinaryOp>)
        requires
            t.start <= t.end <= text@.len(),
        ensures
            r == binary_op_of(token_text(text@, t)),
    {
        if text_is(text, t, &[0x2bu8]) {
            Some(BinaryOp::Add)
        } else if text_is(text, t, &[0x2du8]) {
            Some(BinaryOp::Sub)
        } else if text_is(text, t, &[0x2au8]) {
            Some(BinaryOp::Mul)
        } else if text_is(text, t, &[0x2fu8]) {
            Some(BinaryOp::Div)
        } else if text_is(text, t, &[0x25u8]) || text_is(text, t, &[0x6du8, 0x6fu8, 0x64u8]) {
            Some(BinaryOp::Mod)
        } else if text_is(text, t, &[0x5eu8]) || text_is(text, t, &[0x70u8, 0x6fu8, 0x77u8]) {
            Some(BinaryOp::Pow)
        } else {
            None
        }
    }
}

/// A unary operator kind. Functions of one argument are unary operators.
#[derive(Clone, Copy, PartialEq, Eq, Debug, Structural)]
pub enum UnaryOp {
    Plus,
    Minus,
    Abs,
    Sqrt,
    Sin,
    Cos,
    Tan,
    Asin,
    Acos,
    Atan,
    Ln,
    Exp,
}

/// The unary operator written as `t`, if any.
pub open spec fn unary_op_of(t: Seq<u8>) -> Option<UnaryOp> {
    if t =~= seq![0x2bu8] {
        Some(UnaryOp::Plus)
    } else if t =~= seq![0x2du8] {
        Some(UnaryOp::Minus)
    } else if t =~= seq![0x61u8, 0x62u8, 0x73u8] {
        Some(UnaryOp::Abs)
    } else if t =~= seq![0x73u8, 0x71u8, 0x72u8, 0x74u8] {
        Some(UnaryOp::Sqrt)
    } else if t =~= seq![0x73u8, 0x69u8, 0x6eu8] {
        Some(UnaryOp::Sin)
    } else if t =~= seq![0x63u8, 0x6fu8, 0x73u8] {
        Some(UnaryOp::Cos)
    } else if t =~= seq![0x74u8, 0x61u8, 0x6eu8] {
        Some(UnaryOp::Tan)
    } else if t =~= seq![0x61u8, 0x73u8, 0x69u8, 0x6eu8] {
        Some(UnaryOp::Asin)
    } else if t =~= seq![0x61u8, 0x63u8, 0x6fu8, 0x73u8] {
        Some(UnaryOp::Acos)
    } else if t =~= seq![0x61u8, 0x74u8, 0x61u8, 0x6eu8] {
        Some(UnaryOp::Atan)
    } else if t =~= seq![0x6cu8, 0x6eu8] {
        Some(UnaryOp::Ln)
    } else if t =~= seq![0x65u8, 0x78u8, 0x70u8] {
        Some(UnaryOp::Exp)
    } else {
        None
    }
}

impl UnaryOp {
    /// Tries to get an operator from a token of `text`.
    pub fn from_token(text: &[u8], t: Token) -> (r: Option<UnaryOp>)
        requires
            t.start <= t.end <= text@.len(),
        ensures
            r == unary_op_of(token_text(text@, t)),
    {
        if text_is(text, t, &[0x2bu8]) {
            Some(UnaryOp::Plus)
        } else if text_is(text, t, &[0x2du8]) {
            Some(UnaryOp::Minus)
        } else if text_is(text, t, &[0x61u8, 0x62u8, 0x73u8]) {
            Some(UnaryOp::Abs)
        } else if text_is(text, t, &[0x73u8, 0x71u8, 0x72u8, 0x74u8]) {
            Some(UnaryOp::Sqrt)
        } else if text_is(text, t, &[0x73u8, 0x69u8, 0x6eu8]) {
            Some(UnaryOp::Sin)
        } else if text_is(text, t, &[0x63u8, 0x6fu8, 0x73u8]) {
            Some(UnaryOp::Cos)
        } else if text_is(text, t, &[0x74u8, 0x61u8, 0x6eu8]) {
            Some(UnaryOp::Tan)
        } else if text_is(text, t, &[0x61u8, 0x73u8, 0x69u8, 0x6eu8]) {
            Some(UnaryOp::Asin)
        } else if text_is(text, t, &[0x61u8, 0x63u8, 0x6fu8, 0x73u8]) {
            Some(UnaryOp::Acos)
        } else if text_is(text, t, &[0x61u8, 0x74u8, 0x61u8, 0x6eu8]) {
            Some(UnaryOp::Atan)
        } else if text_is(text, t, &[0x6cu8, 0x6eu8]) {
            Some(UnaryOp::Ln)
        } else if text_is(text, t, &[0x65u8, 0x78u8, 0x70u8]) {
            Some(UnaryOp::Exp)
        } else {
            None
        }
    }
}

/// A function to call with a parenthesized parameter list.
#[derive(Clone, Copy, PartialEq, Eq, Debug, Structural)]
pub enum CallOp {
    /// `log(value, base)`: exactly two parameters.
    Log,
    /// The minimum of any number of parameters (0 when there are none).
    Min,
    /// The maximum of any number of parameters (0 when there are none).
    Max,
}

/// The call operator written as `t`, if any.
pub open spec fn call_op_of(t: Seq<u8>) -> Option<CallOp> {
    if t =~= seq![0x6cu8, 0x6fu8, 0x67u8] {
        Some(CallOp::Log)
    } else if t =~= seq![0x6du8, 0x69u8, 0x6eu8] {
        Some(CallOp::Min)
    } else if t =~= seq![0x6du8, 0x61u8, 0x78u8] {
        Some(CallOp::Max)
    } else {
        None
    }
}

impl CallOp {
    /// Tries to get a function from a token of `text`.
    pub fn from_token(text: &[u8], t: Token) -> (r: Option<CallOp>)
        requires
            t.start <= t.end <= text@.len(),
        ensures
            r == call_op_of(token_text(text@, t)),
    {
        if text_is(text, t, &[0x6cu8, 0x6fu8, 0x67u8]) {
            Some(CallOp::Log)
        } else if text_is(text, t, &[0x6du8, 0x69u8, 0x6eu8]) {
            Some(CallOp::Min)
        } else if text_is(text, t, &[0x6du8, 0x61u8, 0x78u8]) {
            Some(CallOp::Max)
        } else {
            None
        }
    }
}

} // verus!
