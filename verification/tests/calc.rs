use houston::calc::grammar::{Constant, Instr, MathError};
use houston::calc::ops::{BinaryOp, CallOp, UnaryOp};
use houston::calc::message::{ascii_lowercase, describe_error};
use houston::calc::parse::{parse_text, read_expr};
use houston::calc::stream::{tokenize, Tokenizer};

fn apply_unary(op: UnaryOp, value: f64) -> f64 {
    match op {
        UnaryOp::Plus => value,
        UnaryOp::Minus => -value,
        UnaryOp::Abs => value.abs(),
        UnaryOp::Sqrt => value.sqrt(),
        UnaryOp::Sin => value.sin(),
        UnaryOp::Cos => value.cos(),
        UnaryOp::Tan => value.tan(),
        UnaryOp::Asin => value.asin(),
        UnaryOp::Acos => value.acos(),
        UnaryOp::Atan => value.atan(),
        UnaryOp::Ln => value.ln(),
        UnaryOp::Exp => value.exp(),
    }
}

fn apply_binary(op: BinaryOp, lhs: f64, rhs: f64) -> f64 {
    match op {
        BinaryOp::Add => lhs + rhs,
        BinaryOp::Sub => lhs - rhs,
        BinaryOp::Mul => lhs * rhs,
        BinaryOp::Div => lhs / rhs,
        BinaryOp::Mod => lhs % rhs,
        BinaryOp::Pow => lhs.powf(rhs),
    }
}

/// Runs the parsed steps on a stack of numbers.
fn run(text: &[u8], prog: &[Instr]) -> f64 {
    let mut stack: Vec<f64> = Vec::new();
    for step in prog {
        match *step {
            Instr::Number(t) => {
                let s = std::str::from_utf8(&text[t.start..t.end]).unwrap();
                stack.push(s.parse::<f64>().unwrap());
            }
            Instr::Const(Constant::Pi) => stack.push(std::f64::consts::PI),
            Instr::Const(Constant::E) => stack.push(std::f64::consts::E),
            Instr::Const(Constant::Tau) => stack.push(std::f64::consts::TAU),
            Instr::Unary(op) => {
                let v = stack.pop().unwrap();
                stack.push(apply_unary(op, v));
            }
            Instr::Binary(op) => {
                let rhs = stack.pop().unwrap();
                let lhs = stack.pop().unwrap();
                stack.push(apply_binary(op, lhs, rhs));
            }
            Instr::Call(op, n) => {
                let args = stack.split_off(stack.len() - n);
                let value = match op {
                    CallOp::Log => args[0].log(args[1]),
                    CallOp::Min => args.iter().copied().reduce(f64::min).unwrap_or(0.0),
                    CallOp::Max => args.iter().copied().reduce(f64::max).unwrap_or(0.0),
                };
                stack.push(value);
            }
        }
    }
    assert_eq!(stack.len(), 1);
    stack[0]
}

/// Fully evaluates an equation text.
fn eval_text(text: &[u8]) -> Result<f64, MathError> {
    parse_text(text).map(|prog| run(text, &prog))
}

fn is_correct(text: &[u8], expected: f64) {
    let value = eval_text(text).unwrap();
    assert!(value >= expected - 0.001 && value <= expected + 0.001, "{value} != {expected}");
}

#[test]
fn calc_success() {
    is_correct(b"-4.5", -4.5);
    is_correct(b"1 + 2 * 3", 7.0);
    is_correct(b"sin(pi)", 0.0);
    is_correct(b"min(2, max(-3, +5, 2), 21) * log(100, 10)", 4.0);
}

#[test]
fn mod_success() {
    is_correct(b"-4.5", -4.5);
    is_correct(b"1 + 2 * 3", 7.0);
    is_correct(b"1 + min(2) * 3", 7.0);
    is_correct(b"sin(pi)", 0.0);
    is_correct(b"min(2, max(-3, +5, 2), 21) * log(100, 10)", 4.0);
    is_correct(b"min()", 0.0);
}

#[test]
fn precedence_and_associativity() {
    is_correct(b"2 ^ 3 ^ 2", 64.0);
    is_correct(b"10 - 4 - 3", 3.0);
    is_correct(b"2 + 3 * 4 ^ 2 - 1", 49.0);
    is_correct(b"(2 + 3) * 4", 20.0);
    is_correct(b"7 mod 4 pow 1", 3.0);
    is_correct(b"-2 ^ 2", 4.0);
    is_correct(b"sqrt 16 + 1", 5.0);
    is_correct(b"1.5e2", 150.0);
    is_correct(b"tau / 2 - pi", 0.0);
}

#[test]
fn errors() {
    assert!(matches!(parse_text(b""), Err(MathError::ExprExpected(None))));
    assert!(matches!(parse_text(b"1 +"), Err(MathError::ExprExpected(Some(t))) if t.token_index == 1));
    assert!(matches!(parse_text(b"1.2.3"), Err(MathError::InvalidNumber(t)) if t.token_index == 0));
    assert!(matches!(parse_text(b"1e"), Err(MathError::InvalidNumber(_))));
    assert!(matches!(parse_text(b"foo(1)"), Err(MathError::InvalidFunction(t)) if t.start == 0 && t.end == 3));
    assert!(matches!(parse_text(b"foo 1"), Err(MathError::InvalidUnaryOperator(_))));
    assert!(matches!(parse_text(b"foo"), Err(MathError::ExprExpected(Some(t))) if t.token_index == 0));
    assert!(matches!(parse_text(b"1 2"), Err(MathError::InvalidBinaryOperator(t)) if t.token_index == 1));
    assert!(matches!(parse_text(b"log(1)"), Err(MathError::InvalidParameterCount { count: 2, .. })));
    assert!(matches!(parse_text(b"min 2"), Err(MathError::FunctionCallExpected(t)) if t.token_index == 0));
    assert!(matches!(parse_text(b"(1"), Err(MathError::ExprExpected(Some(t))) if t.token_index == 1));
    assert!(matches!(parse_text(b")"), Err(MathError::ExprExpected(Some(t))) if t.token_index == 0));
}

#[test]
fn parsed_program_shape() {
    let prog = parse_text(b"1 + 2 * 3").unwrap();
    assert_eq!(prog.len(), 5);
    assert!(matches!(prog[0], Instr::Number(t) if t.start == 0 && t.end == 1));
    assert!(matches!(prog[3], Instr::Binary(BinaryOp::Mul)));
    assert!(matches!(prog[4], Instr::Binary(BinaryOp::Add)));
    let prog = parse_text(b"max(1, 2, 3)").unwrap();
    assert!(matches!(prog[3], Instr::Call(CallOp::Max, 3)));
}

fn message(text: &[u8]) -> String {
    describe_error(text, parse_text(text).err().unwrap())
}

#[test]
fn error_messages() {
    assert_eq!(message(b"1 +"), "Expected expression at `+`.");
    assert_eq!(message(b""), "Unexpected empty expression.");
    assert_eq!(message(b"1.2.3"), "`1.2.3` is not a valid number.");
    assert_eq!(message(b"foo 1"), "`foo` is not a unary operator.");
    assert_eq!(message(b"1 2"), "`2` is not a binary operator.");
    assert_eq!(message(b"foo(1)"), "The function `foo` is unknown.");
    assert_eq!(message(b"log(1)"), "The function `log` takes 2 parameters.");
    assert_eq!(message(b"min 2"), "`min` is a function and requires `(...)` after it.");
    assert_eq!(describe_error(b"", MathError::Internal), "failed math: Internal");
}

#[test]
fn lowercases_ascii_only() {
    assert_eq!(ascii_lowercase("SIN(PI) + É".as_bytes()), "sin(pi) + É".as_bytes().to_vec());
}

#[test]
fn calc_reply() {
    let (text, result) = houston::calc::message::calc(b"MIN(2, 3) + PI");
    assert_eq!(text, b"min(2, 3) + pi".to_vec());
    assert!(result.is_ok());
    let (_, result) = houston::calc::message::calc(b"FOO(1)");
    assert_eq!(result.err().unwrap(), "The function `foo` is unknown.");
}

#[test]
fn read_expr_consumes_all_tokens() {
    let mut tokens = tokenize(b"1 + min(2, 3) * 4");
    assert!(read_expr(&mut tokens).is_ok());
    assert_eq!(tokens.pos, tokens.tokens.len());
    assert!(tokens.next().is_none());
}

#[test]
fn tokens_cover_text_without_whitespace() {
    let text = b" 12.5e3+foo bar(\t2 ,x)mod 7 ";
    let ts = tokenize(text);
    let mut joined = Vec::new();
    for (m, t) in ts.tokens.iter().enumerate() {
        assert_eq!(t.token_index, m);
        assert!(t.start < t.end);
        joined.extend_from_slice(&text[t.start..t.end]);
    }
    let stripped: Vec<u8> = text.iter().copied().filter(|c| !c.is_ascii_whitespace()).collect();
    assert_eq!(joined, stripped);
    let texts: Vec<&[u8]> = ts.tokens.iter().map(|t| &text[t.start..t.end]).collect();
    let expected: Vec<&[u8]> = vec![
        b"12.5e3", b"+", b"foo", b"bar", b"(", b"2", b",", b"x", b")", b"mod", b"7",
    ];
    assert_eq!(texts, expected);
}

#[test]
fn precedence_of_two_operators() {
    let lower_then_higher = parse_text(b"1 + 2 * 3").unwrap();
    assert!(matches!(
        lower_then_higher[..],
        [Instr::Number(_), Instr::Number(_), Instr::Number(_), Instr::Binary(BinaryOp::Mul), Instr::Binary(BinaryOp::Add)]
    ));
    let equal = parse_text(b"8 - 2 - 1").unwrap();
    assert!(matches!(
        equal[..],
        [Instr::Number(_), Instr::Number(_), Instr::Binary(BinaryOp::Sub), Instr::Number(_), Instr::Binary(BinaryOp::Sub)]
    ));
}
