use vstd::prelude::*;
use super::grammar::{
    adv, args, call, expr, open_text, pairs, spec_parse_text, sub_expr, tok, tok_is, SpecPair, Terminator,
};
use super::message::{error_in, token_in};
use super::ops::{call_op_of, CallOp};
use super::stream::lemma_tokens;
use super::token::{spec_tokens, token_text, Token};

verus! {

/// Every token of the list lies within the text.
pub open spec fn tokens_in(s: Seq<u8>, ts: Seq<Token>) -> bool {
    forall|i: int| 0 <= i < ts.len() ==> token_in(s, #[trigger] ts[i])
}

proof fn lemma_sub_errors(s: Seq<u8>, ts: Seq<Token>, p: int)
    requires
        tokens_in(s, ts),
    ensures
        sub_expr(s, ts, p) matches Err(e) ==> error_in(s, e),
    decreases ts.len() - p, 0int,
{
    if 0 <= p < ts.len() {
        let t = ts[p];
        let q = p + 1;
        lemma_expr_errors(s, ts, q, Terminator::Close);
        lemma_sub_errors(s, ts, q);
        if let Some(op) = call_op_of(token_text(s, t)) {
            lemma_call_errors(s, ts, q, op, t);
        }
    }
}

proof fn lemma_expr_errors(s: Seq<u8>, ts: Seq<Token>, p: int, term: Terminator)
    requires
        tokens_in(s, ts),
    ensures
        expr(s, ts, p, term) matches Err(e) ==> error_in(s, e),
    decreases ts.len() - p, 2int,
{
    lemma_pairs_errors(s, ts, p, term, Seq::empty());
}

proof fn lemma_pairs_errors(s: Seq<u8>, ts: Seq<Token>, p: int, term: Terminator, acc: Seq<SpecPair>)
    requires
        tokens_in(s, ts),
    ensures
        pairs(s, ts, p, term, acc) matches Err(e) ==> error_in(s, e),
    decreases ts.len() - p, 1int,
{
    lemma_sub_errors(s, ts, p);
    if let Ok((v, q)) = sub_expr(s, ts, p) {
        if p < q <= ts.len() {
            let r = adv(ts, q);
            if let Some(ot) = tok(ts, q) {
                if let Some(op) = super::ops::binary_op_of(token_text(s, ot)) {
                    lemma_pairs_errors(s, ts, r, term, acc.push((v, Some(op))));
                }
            }
        }
    }
}

proof fn lemma_call_errors(s: Seq<u8>, ts: Seq<Token>, p: int, op: CallOp, ft: Token)
    requires
        tokens_in(s, ts),
        token_in(s, ft),
    ensures
        call(s, ts, p, op, ft) matches Err(e) ==> error_in(s, e),
    decreases ts.len() - p, 3int,
{
    if tok_is(s, tok(ts, p), open_text()) {
        lemma_args_errors(s, ts, adv(ts, p), op, ft, 0, Seq::empty());
    }
}

proof fn lemma_args_errors(
    s: Seq<u8>,
    ts: Seq<Token>,
    p: int,
    op: CallOp,
    ft: Token,
    n: int,
    acc: Seq<super::grammar::Instr>,
)
    requires
        tokens_in(s, ts),
        token_in(s, ft),
    ensures
        args(s, ts, p, op, ft, n, acc) matches Err(e) ==> error_in(s, e),
    decreases ts.len() - p, 3int,
{
    lemma_expr_errors(s, ts, p, Terminator::CloseOrComma);
    if let Ok((v, q, t)) = expr(s, ts, p, Terminator::CloseOrComma) {
        if p < q <= ts.len() {
            lemma_args_errors(s, ts, q, op, ft, n + 1, acc + v);
        }
    }
}

/// Every error of parsing a text points at tokens of that text: each token the
/// error holds lies within the text, so the error can always be described.
pub proof fn lemma_parse_errors_in_text(s: Seq<u8>)
    requires
        s.len() <= usize::MAX,
    ensures
        spec_parse_text(s) matches Err(e) ==> error_in(s, e),
{
    lemma_tokens(s);
    lemma_expr_errors(s, spec_tokens(s), 0, Terminator::End);
}

} // verus!
