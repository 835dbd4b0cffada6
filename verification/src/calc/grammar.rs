use vstd::prelude::*;
use super::token::{Token, spec_tokens, token_text};
use super::ops::{BinaryOp, UnaryOp, CallOp, priority_of, binary_op_of, unary_op_of, call_op_of};

verus! {

/// A named numeric constant.
#[derive(Clone, Copy, PartialEq, Eq, Debug, Structural)]
pub enum Constant {
    /// `pi`
    Pi,
    /// `e`
    E,
    /// `tau`
    Tau,
}

/// One step of a parsed expression, in evaluation (postfix) order.
///
/// Evaluating runs the steps on a stack of numbers: `Number` and `Const` push one
/// value, `Unary` replaces the top value, `Binary` replaces the top two values (the
/// deeper one is the left-hand side), and `Call(op, n)` replaces the top `n` values.
#[derive(Clone, Copy, PartialEq, Eq, Debug, Structural)]
pub enum Instr {
    /// A number literal; the token's text is a valid decimal floating-point literal.
    Number(Token),
    /// A named constant.
    Const(Constant),
    /// Applies a unary operator.
    Unary(UnaryOp),
    /// Applies a binary operator.
    Binary(BinaryOp),
    /// Calls a function with the given number of parameters.
    Call(CallOp, usize),
}

/// The kinds of errors that may occur when evaluating a mathematical expression.
#[derive(Clone, Copy, PartialEq, Eq, Debug, Structural)]
pub enum MathError {
    /// Some internal error. Usually not returned.
    Internal,
    /// A sub-expression was expected but not found.
    /// Holds the last token before the error.
    ExprExpected(Option<Token>),
    /// Found a token that seemed to be a number but couldn't be parsed as one.
    /// Holds the token in question.
    InvalidNumber(Token),
    /// Found a token that should be a unary operator but wasn't valid.
    /// Holds the token in question.
    InvalidUnaryOperator(Token),
    /// Found a token in a binary operator position that wasn't valid.
    /// Holds the token in question.
    InvalidBinaryOperator(Token),
    /// Encountered a call with an invalid function name.
    /// Holds the function name in question.
    InvalidFunction(Token),
    /// The parameter count for a function was incorrect.
    InvalidParameterCount { function: Token, count: usize },
    /// Expected a function call.
    FunctionCallExpected(Token),
}

/// Which token ends an expression.
#[derive(Clone, Copy, PartialEq, Eq, Debug, Structural)]
pub enum Terminator {
    /// The end of the tokens.
    End,
    /// A `)` token.
    Close,
    /// A `)` or `,` token.
    CloseOrComma,
}

/// Whether a byte is an ASCII digit.
pub open spec fn is_digit(c: u8) -> bool {
    0x30u8 <= c <= 0x39u8
}

/// End (exclusive) of the run of digits that starts at `i`.
pub open spec fn digits_end(s: Seq<u8>, i: int) -> int
    decreases s.len() - i,
{
    if 0 <= i < s.len() && is_digit(s[i]) {
        digits_end(s, i + 1)
    } else {
        i
    }
}

/// Whether `s`, which starts with a digit, is accepted by `f64::from_str`: digits,
/// optionally a `.` with more digits, optionally `e` or `E` followed by digits.
/// (Signs never occur inside a token.)
pub open spec fn valid_number(s: Seq<u8>) -> bool {
    let a = digits_end(s, 0);
    let b = if a < s.len() && s[a] == 0x2eu8 { digits_end(s, a + 1) } else { a };
    &&& a > 0
    &&& (b == s.len() || (b < s.len() && (s[b] == 0x65u8 || s[b] == 0x45u8) && digits_end(s, b + 1)
        > b + 1 && digits_end(s, b + 1) == s.len()))
}

/// The token at position `p`, if any.
pub open spec fn tok(ts: Seq<Token>, p: int) -> Option<Token> {
    if 0 <= p < ts.len() {
        Some(ts[p])
    } else {
        None
    }
}

/// The position after reading a token at `p`.
pub open spec fn adv(ts: Seq<Token>, p: int) -> int {
    if 0 <= p < ts.len() {
        p + 1
    } else {
        p
    }
}

/// The most recently read token when `p` tokens have been read.
pub open spec fn last(ts: Seq<Token>, p: int) -> Option<Token> {
    if 0 < p <= ts.len() {
        Some(ts[p - 1])
    } else {
        None
    }
}

/// Whether `t` is a token with the text `lit`.
pub open spec fn tok_is(s: Seq<u8>, t: Option<Token>, lit: Seq<u8>) -> bool {
    match t {
        Some(t) => token_text(s, t) =~= lit,
        None => false,
    }
}

pub open spec fn open_text() -> Seq<u8> {
    seq![0x28u8]
}

pub open spec fn close_text() -> Seq<u8> {
    seq![0x29u8]
}

pub open spec fn comma_text() -> Seq<u8> {
    seq![0x2cu8]
}

/// Whether the token `t` (or the end, for `None`) terminates an expression.
pub open spec fn terminates(s: Seq<u8>, term: Terminator, t: Option<Token>) -> bool {
    match term {
        Terminator::End => t is None,
        Terminator::Close => tok_is(s, t, close_text()),
        Terminator::CloseOrComma => tok_is(s, t, close_text()) || tok_is(s, t, comma_text()),
    }
}

/// A value and the binary operator that follows it.
pub type SpecPair = (Seq<Instr>, Option<BinaryOp>);

/// Whether the pair at `i` merges with the pair at `i + 1`: the left operator binds
/// at least as tightly as the right one, or the right pair ends the list.
pub open spec fn mergeable(ps: Seq<SpecPair>, i: int) -> bool {
    &&& ps[i].1 is Some
    &&& (ps[i + 1].1 is None || priority_of(ps[i].1->0) >= priority_of(ps[i + 1].1->0))
}

/// The first index from `i` on that merges with its successor (`ps.len() - 1` or more
/// if there is none).
pub open spec fn first_mergeable(ps: Seq<SpecPair>, i: int) -> int
    decreases ps.len() - i,
{
    if i < 0 || i + 1 >= ps.len() {
        i
    } else if mergeable(ps, i) {
        i
    } else {
        first_mergeable(ps, i + 1)
    }
}

/// Replaces the pairs at `i` and `i + 1` by their combination.
pub open spec fn merge_at(ps: Seq<SpecPair>, i: int) -> Seq<SpecPair> {
    ps.subrange(0, i) + seq![
        (ps[i].0 + ps[i + 1].0 + seq![Instr::Binary(ps[i].1->0)], ps[i + 1].1),
    ] + ps.subrange(i + 2, ps.len() as int)
}

/// Merges a list of pairs, repeatedly combining the first mergeable neighbours.
pub open spec fn merge(ps: Seq<SpecPair>) -> Seq<Instr>
    decreases ps.len(),
{
    if ps.len() == 0 {
        Seq::empty()
    } else if ps.len() == 1 {
        ps[0].0
    } else {
        let i = first_mergeable(ps, 0);
        if 0 <= i < ps.len() - 1 {
            merge(merge_at(ps, i))
        } else {
            ps[0].0
        }
    }
}

/// Every pair but the last is followed by an operator; the last is not.
pub open spec fn pairs_wf(ps: Seq<SpecPair>) -> bool {
    &&& ps.len() >= 1
    &&& forall|i: int| 0 <= i < ps.len() - 1 ==> (#[trigger] ps[i]).1 is Some
    &&& ps[ps.len() - 1].1 is None
}

/// The sub-expression at position `p`: its steps and the position after it.
pub open spec fn sub_expr(s: Seq<u8>, ts: Seq<Token>, p: int) -> Result<(Seq<Instr>, int), MathError>
    decreases ts.len() - p, 0int,
{
    if !(0 <= p < ts.len()) {
        Err(MathError::ExprExpected(last(ts, p)))
    } else {
        let t = ts[p];
        let q = p + 1;
        let txt = token_text(s, t);
        if txt =~= open_text() {
            match expr(s, ts, q, Terminator::Close) {
                Ok((v, r, _)) => Ok((v, r)),
                Err(e) => Err(e),
            }
        } else if txt =~= seq![0x70u8, 0x69u8] {
            Ok((seq![Instr::Const(Constant::Pi)], q))
        } else if txt =~= seq![0x65u8] {
            Ok((seq![Instr::Const(Constant::E)], q))
        } else if txt =~= seq![0x74u8, 0x61u8, 0x75u8] {
            Ok((seq![Instr::Const(Constant::Tau)], q))
        } else if txt.len() > 0 && is_digit(txt[0]) {
            if valid_number(txt) {
                Ok((seq![Instr::Number(t)], q))
            } else {
                Err(MathError::InvalidNumber(t))
            }
        } else if txt =~= comma_text() || txt =~= close_text() {
            Err(MathError::ExprExpected(Some(t)))
        } else if unary_op_of(txt) is Some {
            match sub_expr(s, ts, q) {
                Ok((v, r)) => Ok((v.push(Instr::Unary(unary_op_of(txt)->0)), r)),
                Err(e) => Err(e),
            }
        } else if call_op_of(txt) is Some {
            call(s, ts, q, call_op_of(txt)->0, t)
        } else if tok_is(s, tok(ts, q), open_text()) {
            Err(MathError::InvalidFunction(t))
        } else if q < ts.len() {
            Err(MathError::InvalidUnaryOperator(t))
        } else {
            Err(MathError::ExprExpected(Some(t)))
        }
    }
}

/// The expression at position `p`, up to a token that `term` accepts: its steps, the
/// position after the terminator, and the terminator.
pub open spec fn expr(s: Seq<u8>, ts: Seq<Token>, p: int, term: Terminator) -> Result<
    (Seq<Instr>, int, Option<Token>),
    MathError,
>
    decreases ts.len() - p, 2int,
{
    pairs(s, ts, p, term, Seq::empty())
}

/// Reads value/operator pairs from `p` on, after the pairs `acc` already read.
pub open spec fn pairs(
    s: Seq<u8>,
    ts: Seq<Token>,
    p: int,
    term: Terminator,
    acc: Seq<SpecPair>,
) -> Result<(Seq<Instr>, int, Option<Token>), MathError>
    decreases ts.len() - p, 1int,
{
    match sub_expr(s, ts, p) {
        Err(e) => Err(e),
        Ok((v, q)) => {
            // never taken: every successful sub-expression reads a token
            if !(p < q <= ts.len()) {
                Err(MathError::Internal)
            } else {
                let t = tok(ts, q);
                let r = adv(ts, q);
                if terminates(s, term, t) {
                    if acc.len() > 0 {
                        Ok((merge(acc.push((v, None))), r, t))
                    } else {
                        Ok((v, r, t))
                    }
                } else {
                    match t {
                        None => Err(MathError::ExprExpected(last(ts, r))),
                        Some(ot) => match binary_op_of(token_text(s, ot)) {
                            None => Err(MathError::InvalidBinaryOperator(ot)),
                            Some(op) => pairs(s, ts, r, term, acc.push((v, Some(op)))),
                        },
                    }
                }
            }
        },
    }
}

/// Ends a call of `op` (named by `ft`) with `n` parameters whose steps are `prog`.
pub open spec fn finish_call(op: CallOp, ft: Token, n: int, prog: Seq<Instr>, q: int) -> Result<
    (Seq<Instr>, int),
    MathError,
> {
    if op == CallOp::Log && n != 2 {
        Err(MathError::InvalidParameterCount { function: ft, count: 2 })
    } else {
        Ok((prog.push(Instr::Call(op, n as usize)), q))
    }
}

/// A call of `op` (named by `ft`) whose `(` should be at position `p`.
pub open spec fn call(s: Seq<u8>, ts: Seq<Token>, p: int, op: CallOp, ft: Token) -> Result<
    (Seq<Instr>, int),
    MathError,
>
    decreases ts.len() - p, 3int,
{
    let q = adv(ts, p);
    if !tok_is(s, tok(ts, p), open_text()) {
        Err(MathError::FunctionCallExpected(ft))
    } else if tok_is(s, tok(ts, q), close_text()) {
        finish_call(op, ft, 0, Seq::empty(), adv(ts, q))
    } else {
        args(s, ts, q, op, ft, 0, Seq::empty())
    }
}

/// Reads call parameters from `p` on, after `n` parameters with steps `acc`.
pub open spec fn args(
    s: Seq<u8>,
    ts: Seq<Token>,
    p: int,
    op: CallOp,
    ft: Token,
    n: int,
    acc: Seq<Instr>,
) -> Result<(Seq<Instr>, int), MathError>
    decreases ts.len() - p, 3int,
{
    match expr(s, ts, p, Terminator::CloseOrComma) {
        Err(e) => Err(e),
        Ok((v, q, t)) => {
            // never taken: every successful expression reads a token
            if !(p < q <= ts.len()) {
                Err(MathError::Internal)
            } else if tok_is(s, t, close_text()) {
                finish_call(op, ft, n + 1, acc + v, q)
            } else {
                args(s, ts, q, op, ft, n + 1, acc + v)
            }
        },
    }
}

/// The result of parsing the tokens from `p` on as one whole expression.
pub open spec fn spec_read_expr(s: Seq<u8>, ts: Seq<Token>, p: int) -> Result<Seq<Instr>, MathError> {
    match expr(s, ts, p, Terminator::End) {
        Ok((v, _, _)) => Ok(v),
        Err(e) => Err(e),
    }
}

/// The result of parsing a whole text.
pub open spec fn spec_parse_text(s: Seq<u8>) -> Result<Seq<Instr>, MathError> {
    spec_read_expr(s, spec_tokens(s), 0)
}

} // verus!
