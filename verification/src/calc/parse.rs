use vstd::prelude::*;
use super::token::{Token, token_text};
use super::ops::{BinaryOp, UnaryOp, CallOp};
use super::grammar::{
    Constant, Instr, MathError, Terminator, SpecPair, sub_expr, expr, call, args,
    finish_call, merge, merge_at, mergeable, first_mergeable, pairs_wf, is_digit, digits_end,
    valid_number, tok, tok_is, terminates, spec_read_expr, spec_parse_text,
};
use super::stream::{TokenStream, tokenize, lemma_tokens};

verus! {

/// Type of a successful [`read_expr_with_terminator`].
pub struct ExprSuccess {
    /// The steps of the expression.
    pub value: Vec<Instr>,
    /// The token after the expression that terminated it.
    pub terminator: Option<Token>,
}

/// Pair of a value and the following binary operator.
pub struct ValuePair {
    pub value: Vec<Instr>,
    pub operator: Option<BinaryOp>,
}

/// The mathematical view of a list of pairs.
pub open spec fn pair_views(ps: Seq<ValuePair>) -> Seq<SpecPair> {
    ps.map_values(|p: ValuePair| (p.value@, p.operator))
}

/// A sub-expression result together with the read position after it.
pub open spec fn sub_view(r: Result<Vec<Instr>, MathError>, pos: usize) -> Result<
    (Seq<Instr>, int),
    MathError,
> {
    match r {
        Ok(v) => Ok((v@, pos as int)),
        Err(e) => Err(e),
    }
}

/// An expression result together with the read position after it.
pub open spec fn expr_view(r: Result<ExprSuccess, MathError>, pos: usize) -> Result<
    (Seq<Instr>, int, Option<Token>),
    MathError,
> {
    match r {
        Ok(e) => Ok((e.value@, pos as int, e.terminator)),
        Err(e) => Err(e),
    }
}

/// The mathematical view of a parse result.
pub open spec fn prog_view(r: Result<Vec<Instr>, MathError>) -> Result<Seq<Instr>, MathError> {
    match r {
        Ok(v) => Ok(v@),
        Err(e) => Err(e),
    }
}

proof fn lemma_tok_bounds(ts: &TokenStream, p: int)
    requires
        ts.wf(),
        0 <= p < ts.tokens@.len(),
    ensures
        ts.tokens@[p].start < ts.tokens@[p].end <= ts.text@.len(),
        ts.tokens@[p].token_index == p,
{
    lemma_tokens(ts.text@);
    assert(ts.tokens@[p] == super::token::spec_tokens(ts.text@)[p]);
}

/// End of the run of digits of `w` that starts at `i`.
fn scan_digits(w: &[u8], i: usize) -> (r: usize)
    requires
        i <= w@.len(),
    ensures
        r == digits_end(w@, i as int),
        i <= r <= w@.len(),
{
    let mut j = i;
    while j < w.len() && 0x30u8 <= w[j] && w[j] <= 0x39u8
        invariant
            i <= j <= w@.len(),
            digits_end(w@, i as int) == digits_end(w@, j as int),
        decreases w.len() - j,
    {
        j = j + 1;
    }
    j
}

/// Whether the token `t` of `text` is a valid number literal.
fn is_valid_number(text: &[u8], t: Token) -> (r: bool)
    requires
        t.start < t.end <= text@.len(),
    ensures
        r == valid_number(token_text(text@, t)),
{
    let w = &text[t.start..t.end];
    assert(w@ == token_text(text@, t));
    let a = scan_digits(w, 0);
    if a == 0 {
        return false;
    }
    let b = if a < w.len() && w[a] == 0x2eu8 {
        scan_digits(w, a + 1)
    } else {
        a
    };
    if b == w.len() {
        true
    } else if w[b] == 0x65u8 || w[b] == 0x45u8 {
        let c = scan_digits(w, b + 1);
        c > b + 1 && c == w.len()
    } else {
        false
    }
}

/// Merges a list of expression pairs into a singular expression.
fn merge_expr_pairs(pairs: Vec<ValuePair>) -> (r: Vec<Instr>)
    requires
        pairs_wf(pair_views(pairs@)),
    ensures
        r@ == merge(pair_views(pairs@)),
{
    let ghost orig = pair_views(pairs@);
    let mut pairs = pairs;
    while pairs.len() > 1
        invariant
            pairs_wf(pair_views(pairs@)),
            merge(pair_views(pairs@)) == merge(orig),
        decreases pairs.len(),
    {
        let ghost pv = pair_views(pairs@);
        let mut index: usize = 0;
        loop
            invariant_except_break
                pairs_wf(pv),
                pv == pair_views(pairs@),
                0 <= index < pairs@.len() - 1,
                first_mergeable(pv, 0) == first_mergeable(pv, index as int),
            ensures
                0 <= index < pairs@.len() - 1,
                first_mergeable(pv, 0) == index,
                mergeable(pv, index as int),
            decreases pairs.len() - index,
        {
            assert(pv[index as int] == (pairs@[index as int].value@, pairs@[index as int].operator));
            assert(pv[index + 1] == (pairs@[index + 1].value@, pairs@[index + 1].operator));
            let lhs_op = pairs[index].operator;
            let rhs_op = pairs[index + 1].operator;
            if let Some(kind) = lhs_op {
                let merges = match rhs_op {
                    None => true,
                    Some(r) => kind.priority() >= r.priority(),
                };
                if merges {
                    break;
                }
            }
            assert(index + 2 < pairs@.len());
            index = index + 1;
        }
        let ghost v0 = pairs@;
        let rhs = pairs.remove(index + 1);
        let lhs = pairs.remove(index);
        let ghost lv = lhs.value@;
        let ghost rv = rhs.value@;
        let kind = match lhs.operator {
            Some(k) => k,
            None => {
                assert(false);
                BinaryOp::Add
            },
        };
        let mut value = lhs.value;
        let mut rvalue = rhs.value;
        value.append(&mut rvalue);
        value.push(Instr::Binary(kind));
        let ghost before = pairs@;
        pairs.insert(index, ValuePair { value, operator: rhs.operator });
        proof {
            assert(pairs@ == v0.remove(index + 1).remove(index as int).insert(
                index as int,
                ValuePair { value, operator: rhs.operator },
            ));
            assert(lv == v0[index as int].value@);
            assert(rv == v0[index + 1].value@);
            assert(pv[index as int] == (lv, v0[index as int].operator));
            assert(pv[index + 1] == (rv, rhs.operator));
            assert forall|i: int| 0 <= i < pairs@.len() implies #[trigger] pair_views(pairs@)[i]
                == merge_at(pv, index as int)[i] by {
                if i < index {
                    assert(pairs@[i] == v0[i]);
                    assert(pv[i] == (v0[i].value@, v0[i].operator));
                } else if i > index {
                    assert(pairs@[i] == v0[i + 1]);
                    assert(pv[i + 1] == (v0[i + 1].value@, v0[i + 1].operator));
                }
            }
            assert(pair_views(pairs@) =~= merge_at(pv, index as int));
            let m = merge_at(pv, index as int);
            assert forall|i: int| 0 <= i < m.len() - 1 implies (#[trigger] m[i]).1 is Some by {
                if i < index {
                    assert(m[i] == pv[i]);
                } else if i > index {
                    assert(m[i] == pv[i + 1]);
                }
            }
        }
    }
    assert(pairs@.len() == 1);
    let last = pairs.remove(0);
    assert(pair_views(pairs@.push(last))[0] == (last.value@, last.operator));
    last.value
}

/// Whether `t` terminates an expression under `term`.
fn is_terminator(tokens: &TokenStream, term: Terminator, t: Option<Token>) -> (r: bool)
    requires
        tokens.wf(),
        t matches Some(t) ==> t.start <= t.end <= tokens.text@.len(),
    ensures
        r == terminates(tokens.text@, term, t),
{
    match term {
        Terminator::End => t.is_none(),
        Terminator::Close => tokens.is(t, &[0x29u8]),
        Terminator::CloseOrComma => tokens.is(t, &[0x29u8]) || tokens.is(t, &[0x2cu8]),
    }
}

/// Reads a "sub-expression", i.e. it gets the first expression without binary operators
/// like `5` in `5 + 2`, an expression within parenthesis, unary operators with their operand,
/// or a function call.
///
/// If no more tokens are available, returns an error.
fn read_sub_expr(tokens: &mut TokenStream) -> (r: Result<Vec<Instr>, MathError>)
    requires
        old(tokens).wf(),
    ensures
        final(tokens).wf(),
        final(tokens).text@ == old(tokens).text@,
        final(tokens).tokens@ == old(tokens).tokens@,
        old(tokens).pos <= final(tokens).pos,
        r is Ok ==> old(tokens).pos < final(tokens).pos,
        sub_view(r, final(tokens).pos) == sub_expr(
            old(tokens).text@,
            old(tokens).tokens@,
            old(tokens).pos as int,
        ),
    decreases old(tokens).tokens@.len() - old(tokens).pos, 0int,
{
    let ghost p = tokens.pos as int;
    let token = tokens.next_token();
    let t = match token {
        Some(t) => t,
        None => {
            return Err(MathError::ExprExpected(tokens.last_read()));
        },
    };
    proof {
        lemma_tok_bounds(tokens, p);
    }
    if tokens.is(Some(t), &[0x28u8]) {
        // start of parenthesis around child-expression
        match read_expr_with_terminator(tokens, Terminator::Close) {
            Ok(res) => Ok(res.value),
            Err(e) => Err(e),
        }
    } else if tokens.is(Some(t), &[0x70u8, 0x69u8]) {
        {
            let v = vec![Instr::Const(Constant::Pi)];
            assert(v@ =~= seq![Instr::Const(Constant::Pi)]);
            Ok(v)
        }
    } else if tokens.is(Some(t), &[0x65u8]) {
        {
            let v = vec![Instr::Const(Constant::E)];
            assert(v@ =~= seq![Instr::Const(Constant::E)]);
            Ok(v)
        }
    } else if tokens.is(Some(t), &[0x74u8, 0x61u8, 0x75u8]) {
        {
            let v = vec![Instr::Const(Constant::Tau)];
            assert(v@ =~= seq![Instr::Const(Constant::Tau)]);
            Ok(v)
        }
    } else if 0x30u8 <= tokens.text[t.start] && tokens.text[t.start] <= 0x39u8 {
        // anything starting with a digit is assumed to be a number
        assert(token_text(tokens.text@, t)[0] == tokens.text@[t.start as int]);
        if is_valid_number(tokens.text.as_slice(), t) {
            {
            let v = vec![Instr::Number(t)];
            assert(v@ =~= seq![Instr::Number(t)]);
            Ok(v)
        }
        } else {
            Err(MathError::InvalidNumber(t))
        }
    } else if tokens.is(Some(t), &[0x2cu8]) || tokens.is(Some(t), &[0x29u8]) {
        Err(MathError::ExprExpected(Some(t)))
    } else {
        assert(!(token_text(tokens.text@, t).len() > 0 && is_digit(token_text(tokens.text@, t)[0])))
            by {
            assert(token_text(tokens.text@, t)[0] == tokens.text@[t.start as int]);
        }
        match UnaryOp::from_token(tokens.text.as_slice(), t) {
            Some(op) => {
                let mut v = read_sub_expr(tokens)?;
                v.push(Instr::Unary(op));
                Ok(v)
            },
            None => match CallOp::from_token(tokens.text.as_slice(), t) {
                Some(call_fn) => read_call(tokens, call_fn, t),
                None => {
                    let next = tokens.peek_token();
                    proof {
                        if next is Some {
                            lemma_tok_bounds(tokens, tokens.pos as int);
                        }
                    }
                    if tokens.is(next, &[0x28u8]) {
                        Err(MathError::InvalidFunction(t))
                    } else if next.is_some() {
                        Err(MathError::InvalidUnaryOperator(t))
                    } else {
                        Err(MathError::ExprExpected(tokens.last_read()))
                    }
                },
            },
        }
    }
}

/// Reads an expression. This will consume `tokens` until it matches `term`
/// in a top-level binary-operator position.
///
/// If no more tokens are available before it finds the terminator, returns an error.
fn read_expr_with_terminator(tokens: &mut TokenStream, term: Terminator) -> (r: Result<
    ExprSuccess,
    MathError,
>)
    requires
        old(tokens).wf(),
    ensures
        final(tokens).wf(),
        final(tokens).text@ == old(tokens).text@,
        final(tokens).tokens@ == old(tokens).tokens@,
        old(tokens).pos <= final(tokens).pos,
        r is Ok ==> old(tokens).pos < final(tokens).pos,
        r matches Ok(e) ==> (e.terminator matches Some(t) ==> t.start <= t.end
            <= final(tokens).text@.len()),
        expr_view(r, final(tokens).pos) == expr(
            old(tokens).text@,
            old(tokens).tokens@,
            old(tokens).pos as int,
            term,
        ),
    decreases old(tokens).tokens@.len() - old(tokens).pos, 2int,
{
    let ghost s = tokens.text@;
    let ghost ts = tokens.tokens@;
    let ghost p0 = tokens.pos;
    let mut pairs: Vec<ValuePair> = Vec::new();
    assert(pair_views(pairs@) =~= Seq::<SpecPair>::empty());
    loop
        invariant
            tokens.wf(),
            tokens.text@ == s,
            tokens.tokens@ == ts,
            s == old(tokens).text@,
            ts == old(tokens).tokens@,
            p0 == old(tokens).pos,
            p0 <= tokens.pos,
            pairs@.len() > 0 ==> p0 < tokens.pos,
            forall|i: int| 0 <= i < pairs@.len() ==> (#[trigger] pairs@[i]).operator is Some,
            super::grammar::pairs(s, ts, tokens.pos as int, term, pair_views(pairs@)) == expr(s, ts, p0 as int, term),
        decreases ts.len() - tokens.pos,
    {
        let ghost p = tokens.pos as int;
        let value = read_sub_expr(tokens)?;
        let ghost q = tokens.pos as int;
        let token = tokens.next_token();
        proof {
            if token is Some {
                lemma_tok_bounds(tokens, q);
            }
        }
        if is_terminator(tokens, term, token) {
            let value = if pairs.len() > 0 {
                let ghost old_pairs = pairs@;
                pairs.push(ValuePair { value, operator: None });
                proof {
                    assert(pair_views(pairs@) =~= pair_views(old_pairs).push((value@, None)));
                    let pv = pair_views(pairs@);
                    assert forall|i: int| 0 <= i < pv.len() - 1 implies (#[trigger] pv[i]).1 is Some by {
                        assert(pv[i] == (pairs@[i].value@, pairs@[i].operator));
                    }
                }
                merge_expr_pairs(pairs)
            } else {
                value
            };
            return Ok(ExprSuccess { value, terminator: token });
        }
        let operator = match token {
            Some(t) => t,
            None => {
                return Err(MathError::ExprExpected(tokens.last_read()));
            },
        };
        let op = match BinaryOp::from_token(tokens.text.as_slice(), operator) {
            Some(op) => op,
            None => {
                return Err(MathError::InvalidBinaryOperator(operator));
            },
        };
        let ghost old_pairs = pairs@;
        pairs.push(ValuePair { value, operator: Some(op) });
        proof {
            assert(pair_views(pairs@) =~= pair_views(old_pairs).push((value@, Some(op))));
            assert forall|i: int| 0 <= i < pairs@.len() implies (#[trigger] pairs@[i]).operator is Some by {
                if i < old_pairs.len() {
                    assert(pairs@[i] == old_pairs[i]);
                }
            }
        }
    }
}

/// Reads the parameters for a function call and builds its steps.
///
/// This also checks that the next token is `(`.
fn read_call(tokens: &mut TokenStream, call_fn: CallOp, call_fn_token: Token) -> (r: Result<
    Vec<Instr>,
    MathError,
>)
    requires
        old(tokens).wf(),
    ensures
        final(tokens).wf(),
        final(tokens).text@ == old(tokens).text@,
        final(tokens).tokens@ == old(tokens).tokens@,
        old(tokens).pos <= final(tokens).pos,
        r is Ok ==> old(tokens).pos < final(tokens).pos,
        sub_view(r, final(tokens).pos) == call(
            old(tokens).text@,
            old(tokens).tokens@,
            old(tokens).pos as int,
            call_fn,
            call_fn_token,
        ),
    decreases old(tokens).tokens@.len() - old(tokens).pos, 3int,
{
    let ghost s = tokens.text@;
    let ghost ts = tokens.tokens@;
    let ghost p0 = tokens.pos as int;
    let open = tokens.next_token();
    proof {
        if open is Some {
            lemma_tok_bounds(tokens, p0);
        }
    }
    if !tokens.is(open, &[0x28u8]) {
        return Err(MathError::FunctionCallExpected(call_fn_token));
    }
    let mut params: Vec<Instr> = Vec::new();
    let mut count: usize = 0;
    let ghost q = tokens.pos as int;
    let peeked = tokens.peek_token();
    proof {
        if peeked is Some {
            lemma_tok_bounds(tokens, q);
        }
    }
    if tokens.is(peeked, &[0x29u8]) {
        // empty argument list. pop `)`
        tokens.next_token();
    } else {
        assert(params@ =~= Seq::<Instr>::empty());
        loop
            invariant_except_break
                tokens.wf(),
                tokens.text@ == s,
                tokens.tokens@ == ts,
                s == old(tokens).text@,
                ts == old(tokens).tokens@,
                p0 == old(tokens).pos,
                p0 < q <= tokens.pos,
                count <= tokens.pos - q,
                args(s, ts, tokens.pos as int, call_fn, call_fn_token, count as int, params@) == call(
                    s,
                    ts,
                    p0,
                    call_fn,
                    call_fn_token,
                ),
            ensures
                tokens.wf(),
                tokens.text@ == s,
                tokens.tokens@ == ts,
                q < tokens.pos,
                finish_call(call_fn, call_fn_token, count as int, params@, tokens.pos as int) == call(
                    s,
                    ts,
                    p0,
                    call_fn,
                    call_fn_token,
                ),
            decreases ts.len() - tokens.pos,
        {
            let res = read_expr_with_terminator(tokens, Terminator::CloseOrComma)?;
            let mut value = res.value;
            params.append(&mut value);
            count = count + 1;
            if tokens.is(res.terminator, &[0x29u8]) {
                break;
            }
        }
    }
    if call_fn == CallOp::Log && count != 2 {
        return Err(MathError::InvalidParameterCount { function: call_fn_token, count: 2 });
    }
    params.push(Instr::Call(call_fn, count));
    Ok(params)
}

/// A whole expression, when it is read successfully, ends at the end of the tokens.
proof fn lemma_pairs_end(s: Seq<u8>, ts: Seq<Token>, p: int, acc: Seq<SpecPair>)
    ensures
        super::grammar::pairs(s, ts, p, Terminator::End, acc) matches Ok((_, r, _)) ==> r == ts.len(),
    decreases ts.len() - p,
{
    if let Ok((v, q)) = sub_expr(s, ts, p) {
        if p < q <= ts.len() {
            let t = tok(ts, q);
            let r = super::grammar::adv(ts, q);
            if !terminates(s, Terminator::End, t) {
                if let Some(ot) = t {
                    if let Some(op) = super::ops::binary_op_of(token_text(s, ot)) {
                        lemma_pairs_end(s, ts, r, acc.push((v, Some(op))));
                    }
                }
            }
        }
    }
}

/// Reads an expression. This will consume `tokens` until the end.
pub fn read_expr(tokens: &mut TokenStream) -> (r: Result<Vec<Instr>, MathError>)
    requires
        old(tokens).wf(),
    ensures
        final(tokens).wf(),
        final(tokens).text@ == old(tokens).text@,
        final(tokens).tokens@ == old(tokens).tokens@,
        prog_view(r) == spec_read_expr(old(tokens).text@, old(tokens).tokens@, old(tokens).pos as int),
        r is Ok ==> final(tokens).pos == final(tokens).tokens@.len(),
{
    proof {
        lemma_pairs_end(tokens.text@, tokens.tokens@, tokens.pos as int, Seq::empty());
    }
    match read_expr_with_terminator(tokens, Terminator::End) {
        Ok(e) => Ok(e.value),
        Err(e) => Err(e),
    }
}

/// Fully parses an equation text into its evaluation steps.
pub fn parse_text(text: &[u8]) -> (r: Result<Vec<Instr>, MathError>)
    ensures
        prog_view(r) == spec_parse_text(text@),
{
    let mut tokens = tokenize(text);
    read_expr(&mut tokens)
}

} // verus!
