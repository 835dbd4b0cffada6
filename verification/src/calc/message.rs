use vstd::prelude::*;
use super::errors::lemma_parse_errors_in_text;
use super::grammar::{spec_parse_text, Instr, MathError};
use super::parse::parse_text;
use super::token::{token_text, Token};
use crate::text::chars::{dec, push_decimal, string_from_chars, string_from_utf8_lossy, utf8_lossy};

verus! {

/// A byte with ASCII upper-case letters made lower-case.
pub open spec fn lower(b: u8) -> u8 {
    if 0x41 <= b <= 0x5A {
        (b + 0x20) as u8
    } else {
        b
    }
}

/// Makes the ASCII letters of an expression lower-case.
pub fn ascii_lowercase(text: &[u8]) -> (r: Vec<u8>)
    ensures
        r@.len() == text@.len(),
        forall|i: int| 0 <= i < text@.len() ==> #[trigger] r@[i] == lower(text@[i]),
{
    let mut out: Vec<u8> = Vec::new();
    let mut i: usize = 0;
    while i < text.len()
        invariant
            0 <= i <= text@.len(),
            out@.len() == i,
            forall|k: int| 0 <= k < i ==> #[trigger] out@[k] == lower(text@[k]),
        decreases text@.len() - i,
    {
        let b = text[i];
        out.push(if 0x41 <= b && b <= 0x5A { b + 0x20 } else { b });
        i = i + 1;
    }
    out
}

/// The text of a token, decoded as UTF-8.
pub open spec fn shown(text: Seq<u8>, t: Token) -> Seq<char> {
    utf8_lossy(token_text(text, t))
}

/// The message a calculation error is reported with.
pub open spec fn error_message(text: Seq<u8>, e: MathError) -> Seq<char> {
    match e {
        MathError::ExprExpected(Some(at)) => "Expected expression at `"@ + shown(text, at) + "`."@,
        MathError::ExprExpected(None) => "Unexpected empty expression."@,
        MathError::InvalidNumber(num) => "`"@ + shown(text, num) + "` is not a valid number."@,
        MathError::InvalidUnaryOperator(op) => "`"@ + shown(text, op) + "` is not a unary operator."@,
        MathError::InvalidBinaryOperator(op) => "`"@ + shown(text, op) + "` is not a binary operator."@,
        MathError::InvalidFunction(f) => "The function `"@ + shown(text, f) + "` is unknown."@,
        MathError::InvalidParameterCount { function, count } => if count == 1 {
            "The function `"@ + shown(text, function) + "` takes 1 parameter."@
        } else {
            "The function `"@ + shown(text, function) + "` takes "@ + dec(count as nat) + " parameters."@
        },
        MathError::FunctionCallExpected(f) => "`"@ + shown(text, f) + "` is a function and requires `(...)` after it."@,
        MathError::Internal => "failed math: Internal"@,
    }
}

/// The text of a token of `text`.
fn show(text: &[u8], t: Token) -> (r: String)
    requires
        t.start <= t.end <= text@.len(),
    ensures
        r@ == shown(text@, t),
{
    string_from_utf8_lossy(&text[t.start..t.end])
}

/// Whether a token lies within the text.
pub open spec fn token_in(text: Seq<u8>, t: Token) -> bool {
    t.start <= t.end <= text.len()
}

/// The tokens an error holds lie within the text.
pub open spec fn error_in(text: Seq<u8>, e: MathError) -> bool {
    match e {
        MathError::ExprExpected(Some(at)) => token_in(text, at),
        MathError::InvalidNumber(t) => token_in(text, t),
        MathError::InvalidUnaryOperator(t) => token_in(text, t),
        MathError::InvalidBinaryOperator(t) => token_in(text, t),
        MathError::InvalidFunction(t) => token_in(text, t),
        MathError::InvalidParameterCount { function, .. } => token_in(text, function),
        MathError::FunctionCallExpected(t) => token_in(text, t),
        _ => true,
    }
}

/// Builds the message a calculation error of `text` is reported with.
pub fn describe_error(text: &[u8], e: MathError) -> (r: String)
    requires
        error_in(text@, e),
    ensures
        r@ == error_message(text@, e),
{
    let mut f = String::new();
    match e {
        MathError::ExprExpected(Some(at)) => {
            f.append("Expected expression at `");
            f.append(show(text, at).as_str());
            f.append("`.");
        },
        MathError::ExprExpected(None) => {
            f.append("Unexpected empty expression.");
        },
        MathError::InvalidNumber(num) => {
            f.append("`");
            f.append(show(text, num).as_str());
            f.append("` is not a valid number.");
        },
        MathError::InvalidUnaryOperator(op) => {
            f.append("`");
            f.append(show(text, op).as_str());
            f.append("` is not a unary operator.");
        },
        MathError::InvalidBinaryOperator(op) => {
            f.append("`");
            f.append(show(text, op).as_str());
            f.append("` is not a binary operator.");
        },
        MathError::InvalidFunction(function) => {
            f.append("The function `");
            f.append(show(text, function).as_str());
            f.append("` is unknown.");
        },
        MathError::InvalidParameterCount { function, count } => {
            f.append("The function `");
            f.append(show(text, function).as_str());
            if count == 1 {
                f.append("` takes 1 parameter.");
            } else {
                f.append("` takes ");
                let mut digits: Vec<char> = Vec::new();
                push_decimal(&mut digits, count as u128);
                f.append(string_from_chars(digits).as_str());
                f.append(" parameters.");
            }
        },
        MathError::FunctionCallExpected(function) => {
            f.append("`");
            f.append(show(text, function).as_str());
            f.append("` is a function and requires `(...)` after it.");
        },
        MathError::Internal => {
            f.append("failed math: Internal");
        },
    }
    f
}

/// What the calculator makes of an expression: the expression with its ASCII letters
/// lower-cased, and either the program that evaluates it or the message describing
/// why it is not an expression.
pub fn calc(expression: &[u8]) -> (r: (Vec<u8>, Result<Vec<Instr>, String>))
    ensures
        r.0@.len() == expression@.len(),
        forall|i: int| 0 <= i < expression@.len() ==> #[trigger] r.0@[i] == lower(expression@[i]),
        match r.1 {
            Ok(prog) => spec_parse_text(r.0@) == Ok::<Seq<Instr>, MathError>(prog@),
            Err(msg) => spec_parse_text(r.0@) matches Err(e) && msg@ == error_message(r.0@, e),
        },
{
    let text = ascii_lowercase(expression);
    let n = text.len();
    assert(text@.len() == n);
    match parse_text(text.as_slice()) {
        Ok(prog) => (text, Ok(prog)),
        Err(e) => {
            proof {
                lemma_parse_errors_in_text(text@);
            }
            let msg = describe_error(text.as_slice(), e);
            (text, Err(msg))
        },
    }
}

} // verus!
