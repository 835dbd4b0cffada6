use vstd::prelude::*;
use super::token::{Token, spec_tokens};
use super::ops::{priority_of, BinaryOp, CallOp};
use super::grammar::{
    Instr, Terminator, SpecPair, sub_expr, expr, pairs, call, args, finish_call, merge, merge_at,
    first_mergeable, pairs_wf, spec_parse_text, spec_read_expr, valid_number, is_digit, open_text,
    tok, terminates,
};
use super::token::token_text;
use super::ops::binary_op_of;
use super::stream::lemma_tokens;

verus! {

/// How many values a step takes from the stack, and how many it puts back.
pub open spec fn stack_effect(i: Instr) -> (int, int) {
    match i {
        Instr::Number(_) => (0, 1),
        Instr::Const(_) => (0, 1),
        Instr::Unary(_) => (1, 1),
        Instr::Binary(_) => (2, 1),
        Instr::Call(_, n) => (n as int, 1),
    }
}

/// The stack depth after running `prog` from depth `d`, or `None` if a step finds
/// too few values on the stack.
pub open spec fn run_depth(prog: Seq<Instr>, d: int) -> Option<int>
    decreases prog.len(),
{
    if prog.len() == 0 {
        Some(d)
    } else {
        let (pops, pushes) = stack_effect(prog[0]);
        if d < pops {
            None
        } else {
            run_depth(prog.drop_first(), d - pops + pushes)
        }
    }
}

/// Running `prog` from an empty stack never runs short and leaves exactly one value.
pub open spec fn single_value(prog: Seq<Instr>) -> bool {
    run_depth(prog, 0) == Some(1int)
}

/// Running two programs one after the other.
pub proof fn lemma_run_append(a: Seq<Instr>, b: Seq<Instr>, d: int)
    ensures
        run_depth(a + b, d) == match run_depth(a, d) {
            Some(e) => run_depth(b, e),
            None => None,
        },
    decreases a.len(),
{
    if a.len() == 0 {
        assert(a + b =~= b);
    } else {
        let (pops, pushes) = stack_effect(a[0]);
        assert((a + b).drop_first() =~= a.drop_first() + b);
        if d >= pops {
            lemma_run_append(a.drop_first(), b, d - pops + pushes);
        }
    }
}

/// Running a program with one more step at its end.
pub proof fn lemma_run_push(a: Seq<Instr>, last: Instr, d: int)
    ensures
        run_depth(a.push(last), d) == match run_depth(a, d) {
            Some(e) => if e >= stack_effect(last).0 {
                Some(e - stack_effect(last).0 + stack_effect(last).1)
            } else {
                None
            },
            None => None,
        },
{
    assert(a.push(last) =~= a + seq![last]);
    lemma_run_append(a, seq![last], d);
    assert(seq![last].drop_first() =~= Seq::<Instr>::empty());
    reveal_with_fuel(run_depth, 2);
}

/// Values already on the stack below do not change how a program runs.
pub proof fn lemma_run_shift(a: Seq<Instr>, d: int, k: int)
    requires
        k >= 0,
        run_depth(a, d) is Some,
    ensures
        run_depth(a, d + k) == Some(run_depth(a, d)->0 + k),
    decreases a.len(),
{
    if a.len() > 0 {
        let (pops, pushes) = stack_effect(a[0]);
        lemma_run_shift(a.drop_first(), d - pops + pushes, k);
    }
}

/// A program made of `n` single-value programs, one after the other.
pub proof fn lemma_run_seq_of_singles(a: Seq<Instr>, v: Seq<Instr>, n: int)
    requires
        n >= 0,
        run_depth(a, 0) == Some(n),
        single_value(v),
    ensures
        run_depth(a + v, 0) == Some(n + 1),
{
    lemma_run_append(a, v, 0);
    lemma_run_shift(v, 0, n);
}

/// Every pair holds a single-value program.
pub open spec fn all_single(ps: Seq<SpecPair>) -> bool {
    forall|i: int| 0 <= i < ps.len() ==> single_value(#[trigger] ps[i].0)
}

proof fn lemma_one(i: Instr)
    requires
        i is Number || i is Const,
    ensures
        single_value(seq![i]),
{
    assert(seq![i].drop_first() =~= Seq::<Instr>::empty());
    reveal_with_fuel(run_depth, 2);
}

proof fn lemma_combine(a: Seq<Instr>, b: Seq<Instr>, last: Instr)
    requires
        single_value(a),
        single_value(b),
        last is Binary,
    ensures
        single_value(a + b + seq![last]),
{
    lemma_run_seq_of_singles(a, b, 1);
    lemma_run_push(a + b, last, 0);
    assert((a + b).push(last) =~= a + b + seq![last]);
}

proof fn lemma_first_mergeable_bounds(ps: Seq<SpecPair>, i: int)
    requires
        pairs_wf(ps),
        0 <= i < ps.len() - 1,
    ensures
        i <= first_mergeable(ps, i) < ps.len() - 1,
    decreases ps.len() - i,
{
    if i + 1 < ps.len() - 1 && !super::grammar::mergeable(ps, i) {
        lemma_first_mergeable_bounds(ps, i + 1);
    }
}

/// Merging single-value programs gives a single-value program.
pub proof fn lemma_merge_single(ps: Seq<SpecPair>)
    requires
        pairs_wf(ps),
        all_single(ps),
    ensures
        single_value(merge(ps)),
    decreases ps.len(),
{
    if ps.len() == 1 {
        assert(single_value(ps[0].0));
    } else {
        lemma_first_mergeable_bounds(ps, 0);
        let i = first_mergeable(ps, 0);
        let m = merge_at(ps, i);
        assert(single_value(ps[i].0));
        assert(single_value(ps[i + 1].0));
        lemma_combine(ps[i].0, ps[i + 1].0, Instr::Binary(ps[i].1->0));
        assert forall|j: int| 0 <= j < m.len() implies single_value(#[trigger] m[j].0) by {
            if j < i {
                assert(m[j] == ps[j]);
            } else if j > i {
                assert(m[j] == ps[j + 1]);
            }
        }
        assert forall|j: int| 0 <= j < m.len() - 1 implies (#[trigger] m[j]).1 is Some by {
            if j < i {
                assert(m[j] == ps[j]);
            } else if j > i {
                assert(m[j] == ps[j + 1]);
            }
        }
        lemma_merge_single(m);
    }
}

proof fn lemma_sub_single(s: Seq<u8>, ts: Seq<Token>, p: int)
    requires
        ts.len() <= usize::MAX,
    ensures
        sub_expr(s, ts, p) matches Ok((v, _)) ==> single_value(v),
    decreases ts.len() - p, 0int,
{
    if 0 <= p < ts.len() {
        let q = p + 1;
        lemma_expr_single(s, ts, q, Terminator::Close);
        lemma_sub_single(s, ts, q);
        let txt = super::token::token_text(s, ts[p]);
        if let Some(op) = super::ops::call_op_of(txt) {
            lemma_call_single(s, ts, q, op, ts[p]);
        }
        if let Ok((v, _)) = sub_expr(s, ts, q) {
            if let Some(op) = super::ops::unary_op_of(txt) {
                lemma_run_push(v, Instr::Unary(op), 0);
            }
        }
        lemma_one(Instr::Number(ts[p]));
        lemma_one(Instr::Const(super::grammar::Constant::Pi));
        lemma_one(Instr::Const(super::grammar::Constant::E));
        lemma_one(Instr::Const(super::grammar::Constant::Tau));
    }
}

proof fn lemma_expr_single(s: Seq<u8>, ts: Seq<Token>, p: int, term: Terminator)
    requires
        ts.len() <= usize::MAX,
    ensures
        expr(s, ts, p, term) matches Ok((v, _, _)) ==> single_value(v),
    decreases ts.len() - p, 2int,
{
    lemma_pairs_single(s, ts, p, term, Seq::empty());
}

proof fn lemma_pairs_single(s: Seq<u8>, ts: Seq<Token>, p: int, term: Terminator, acc: Seq<SpecPair>)
    requires
        ts.len() <= usize::MAX,
        all_single(acc),
        forall|i: int| 0 <= i < acc.len() ==> (#[trigger] acc[i]).1 is Some,
    ensures
        pairs(s, ts, p, term, acc) matches Ok((v, _, _)) ==> single_value(v),
    decreases ts.len() - p, 1int,
{
    lemma_sub_single(s, ts, p);
    if let Ok((v, q)) = sub_expr(s, ts, p) {
        if p < q <= ts.len() {
            let t = super::grammar::tok(ts, q);
            let r = super::grammar::adv(ts, q);
            if super::grammar::terminates(s, term, t) {
                if acc.len() > 0 {
                    let ps = acc.push((v, None));
                    assert forall|i: int| 0 <= i < ps.len() implies single_value(#[trigger] ps[i].0) by {
                        if i < acc.len() {
                            assert(ps[i] == acc[i]);
                        }
                    }
                    assert forall|i: int| 0 <= i < ps.len() - 1 implies (#[trigger] ps[i]).1 is Some by {
                        assert(ps[i] == acc[i]);
                    }
                    lemma_merge_single(ps);
                }
            } else if let Some(ot) = t {
                if let Some(op) = super::ops::binary_op_of(super::token::token_text(s, ot)) {
                    let ps = acc.push((v, Some(op)));
                    assert forall|i: int| 0 <= i < ps.len() implies single_value(#[trigger] ps[i].0) by {
                        if i < acc.len() {
                            assert(ps[i] == acc[i]);
                        }
                    }
                    assert forall|i: int| 0 <= i < ps.len() implies (#[trigger] ps[i]).1 is Some by {
                        if i < acc.len() {
                            assert(ps[i] == acc[i]);
                        }
                    }
                    lemma_pairs_single(s, ts, r, term, ps);
                }
            }
        }
    }
}

proof fn lemma_finish_single(op: CallOp, ft: Token, n: int, prog: Seq<Instr>, q: int)
    requires
        0 <= n <= usize::MAX,
        run_depth(prog, 0) == Some(n),
    ensures
        finish_call(op, ft, n, prog, q) matches Ok((v, _)) ==> single_value(v),
{
    lemma_run_push(prog, Instr::Call(op, n as usize), 0);
}

proof fn lemma_call_single(s: Seq<u8>, ts: Seq<Token>, p: int, op: CallOp, ft: Token)
    requires
        ts.len() <= usize::MAX,
    ensures
        call(s, ts, p, op, ft) matches Ok((v, _)) ==> single_value(v),
    decreases ts.len() - p, 3int,
{
    let q = super::grammar::adv(ts, p);
    lemma_finish_single(op, ft, 0, Seq::empty(), super::grammar::adv(ts, q));
    if super::grammar::tok_is(s, super::grammar::tok(ts, p), super::grammar::open_text()) {
        lemma_args_single(s, ts, q, op, ft, 0, Seq::empty());
    }
}

proof fn lemma_args_single(
    s: Seq<u8>,
    ts: Seq<Token>,
    p: int,
    op: CallOp,
    ft: Token,
    n: int,
    acc: Seq<Instr>,
)
    requires
        ts.len() <= usize::MAX,
        0 <= n <= p,
        run_depth(acc, 0) == Some(n),
    ensures
        args(s, ts, p, op, ft, n, acc) matches Ok((v, _)) ==> single_value(v),
    decreases ts.len() - p, 3int,
{
    lemma_expr_single(s, ts, p, Terminator::CloseOrComma);
    if let Ok((v, q, t)) = expr(s, ts, p, Terminator::CloseOrComma) {
        if p < q <= ts.len() {
            lemma_run_seq_of_singles(acc, v, n);
            lemma_finish_single(op, ft, n + 1, acc + v, q);
            lemma_args_single(s, ts, q, op, ft, n + 1, acc + v);
        }
    }
}

/// Every successfully parsed text is a program that, run on an empty stack, never
/// runs short of values and leaves exactly one value: the result.
pub proof fn lemma_parse_gives_one_value(s: Seq<u8>)
    requires
        s.len() <= usize::MAX,
    ensures
        spec_parse_text(s) matches Ok(prog) ==> single_value(prog),
{
    lemma_tokens(s);
    lemma_expr_single(s, spec_tokens(s), 0, Terminator::End);
}

/// Merging a well-formed list of two or more value/operator pairs always finds
/// neighbours to merge: if no earlier pair merges, the last two do.
pub proof fn lemma_merge_progresses(ps: Seq<SpecPair>)
    requires
        pairs_wf(ps),
        ps.len() > 1,
    ensures
        0 <= first_mergeable(ps, 0) < ps.len() - 1,
{
    lemma_first_mergeable_bounds(ps, 0);
}

/// Operator precedence: in `a o1 b o2 c`, the left operator is applied first when it
/// binds at least as tightly as the right one (so equal operators group to the left),
/// else the right one is.
pub proof fn lemma_merge_precedence(a: Seq<Instr>, b: Seq<Instr>, c: Seq<Instr>, o1: BinaryOp, o2: BinaryOp)
    ensures
        merge(seq![(a, Some(o1)), (b, Some(o2)), (c, None::<BinaryOp>)]) == if priority_of(o1) >= priority_of(
            o2,
        ) {
            a + b + seq![Instr::Binary(o1)] + c + seq![Instr::Binary(o2)]
        } else {
            a + (b + c + seq![Instr::Binary(o2)]) + seq![Instr::Binary(o1)]
        },
{
    let ps: Seq<SpecPair> = seq![(a, Some(o1)), (b, Some(o2)), (c, None::<BinaryOp>)];
    if priority_of(o1) >= priority_of(o2) {
        assert(first_mergeable(ps, 0) == 0);
        let m1 = merge_at(ps, 0);
        assert(m1 =~= seq![(a + b + seq![Instr::Binary(o1)], Some(o2)), (c, None::<BinaryOp>)]);
        assert(first_mergeable(m1, 0) == 0);
        let m2 = merge_at(m1, 0);
        assert(m2 =~= seq![(a + b + seq![Instr::Binary(o1)] + c + seq![Instr::Binary(o2)], None::<BinaryOp>)]);
        assert(merge(m2) == m2[0].0);
        assert(merge(m1) == merge(m2));
    } else {
        assert(first_mergeable(ps, 1) == 1);
        assert(first_mergeable(ps, 0) == 1);
        let m1 = merge_at(ps, 1);
        assert(m1 =~= seq![(a, Some(o1)), (b + c + seq![Instr::Binary(o2)], None::<BinaryOp>)]);
        assert(first_mergeable(m1, 0) == 0);
        let m2 = merge_at(m1, 0);
        assert(m2 =~= seq![(a + (b + c + seq![Instr::Binary(o2)]) + seq![Instr::Binary(o1)], None::<BinaryOp>)]);
        assert(merge(m2) == m2[0].0);
        assert(merge(m1) == merge(m2));
    }
}


/// Whether token `t` of `s` is a number literal: it starts with a digit and is a
/// valid decimal literal.
pub open spec fn number_token(s: Seq<u8>, t: Token) -> bool {
    let txt = token_text(s, t);
    &&& txt.len() > 0
    &&& is_digit(txt[0])
    &&& valid_number(txt)
}

proof fn lemma_number_sub_expr(s: Seq<u8>, ts: Seq<Token>, p: int)
    requires
        0 <= p < ts.len(),
        number_token(s, ts[p]),
    ensures
        sub_expr(s, ts, p) == Ok::<(Seq<Instr>, int), super::grammar::MathError>(
            (seq![Instr::Number(ts[p])], p + 1),
        ),
{
    let txt = token_text(s, ts[p]);
    assert(!(txt =~= open_text())) by {
        if txt =~= open_text() {
            assert(txt[0] == 0x28u8);
        }
    }
    assert(!(txt =~= seq![0x70u8, 0x69u8])) by {
        if txt =~= seq![0x70u8, 0x69u8] {
            assert(txt[0] == 0x70u8);
        }
    }
    assert(!(txt =~= seq![0x65u8])) by {
        if txt =~= seq![0x65u8] {
            assert(txt[0] == 0x65u8);
        }
    }
    assert(!(txt =~= seq![0x74u8, 0x61u8, 0x75u8])) by {
        if txt =~= seq![0x74u8, 0x61u8, 0x75u8] {
            assert(txt[0] == 0x74u8);
        }
    }
}

/// Operator precedence on whole texts: a text that tokenizes as `a o1 b o2 c`, with
/// number literals `a`, `b`, `c` and binary operators `o1`, `o2`, parses to the steps
/// that apply `o1` to `a` and `b` first when `o1` binds at least as tightly as `o2`
/// (so equal priorities group to the left), and else apply `o2` to `b` and `c` first.
pub proof fn lemma_read_precedence(s: Seq<u8>, o1: BinaryOp, o2: BinaryOp)
    requires
        spec_tokens(s).len() == 5,
        number_token(s, spec_tokens(s)[0]),
        number_token(s, spec_tokens(s)[2]),
        number_token(s, spec_tokens(s)[4]),
        binary_op_of(token_text(s, spec_tokens(s)[1])) == Some(o1),
        binary_op_of(token_text(s, spec_tokens(s)[3])) == Some(o2),
    ensures
        spec_parse_text(s) == Ok::<Seq<Instr>, super::grammar::MathError>(
            if priority_of(o1) >= priority_of(o2) {
                seq![
                    Instr::Number(spec_tokens(s)[0]),
                    Instr::Number(spec_tokens(s)[2]),
                    Instr::Binary(o1),
                    Instr::Number(spec_tokens(s)[4]),
                    Instr::Binary(o2),
                ]
            } else {
                seq![
                    Instr::Number(spec_tokens(s)[0]),
                    Instr::Number(spec_tokens(s)[2]),
                    Instr::Number(spec_tokens(s)[4]),
                    Instr::Binary(o2),
                    Instr::Binary(o1),
                ]
            },
        ),
{
    let ts = spec_tokens(s);
    let a: Seq<Instr> = seq![Instr::Number(ts[0])];
    let b: Seq<Instr> = seq![Instr::Number(ts[2])];
    let c: Seq<Instr> = seq![Instr::Number(ts[4])];
    lemma_number_sub_expr(s, ts, 0);
    lemma_number_sub_expr(s, ts, 2);
    lemma_number_sub_expr(s, ts, 4);
    let acc1: Seq<SpecPair> = seq![(a, Some(o1))];
    let acc2: Seq<SpecPair> = acc1.push((b, Some(o2)));
    assert(tok(ts, 5) is None);
    assert(terminates(s, Terminator::End, tok(ts, 5)));
    assert(pairs(s, ts, 4, Terminator::End, acc2) == Ok::<
        (Seq<Instr>, int, Option<Token>),
        super::grammar::MathError,
    >((merge(acc2.push((c, None))), 5, None)));
    assert(pairs(s, ts, 2, Terminator::End, acc1) == pairs(s, ts, 4, Terminator::End, acc2));
    assert(Seq::<SpecPair>::empty().push((a, Some(o1))) =~= acc1);
    assert(pairs(s, ts, 0, Terminator::End, Seq::empty()) == pairs(s, ts, 2, Terminator::End, acc1));
    assert(acc2.push((c, None)) =~= seq![(a, Some(o1)), (b, Some(o2)), (c, None::<BinaryOp>)]);
    lemma_merge_precedence(a, b, c, o1, o2);
    assert(a + b + seq![Instr::Binary(o1)] + c + seq![Instr::Binary(o2)] =~= seq![
        Instr::Number(ts[0]),
        Instr::Number(ts[2]),
        Instr::Binary(o1),
        Instr::Number(ts[4]),
        Instr::Binary(o2),
    ]);
    assert(a + (b + c + seq![Instr::Binary(o2)]) + seq![Instr::Binary(o1)] =~= seq![
        Instr::Number(ts[0]),
        Instr::Number(ts[2]),
        Instr::Number(ts[4]),
        Instr::Binary(o2),
        Instr::Binary(o1),
    ]);
}


/// The ranks of the operators: `+` and `-` bind alike, `*`, `/` and `%` bind alike
/// and tighter than `+` and `-`, and `^` binds tightest.
pub proof fn lemma_operator_ranks()
    ensures
        priority_of(BinaryOp::Add) == priority_of(BinaryOp::Sub),
        priority_of(BinaryOp::Mul) == priority_of(BinaryOp::Div),
        priority_of(BinaryOp::Mul) == priority_of(BinaryOp::Mod),
        priority_of(BinaryOp::Add) < priority_of(BinaryOp::Mul),
        priority_of(BinaryOp::Mul) < priority_of(BinaryOp::Pow),
{
}

/// In `a o1 b o2 c` with `o1` one of `+ -` and `o2` one of `* / % ^`, the right
/// operator is applied first: the text means `a o1 (b o2 c)`. With `o2` also one of
/// `+ -`, it means `(a o1 b) o2 c`.
pub proof fn lemma_additive_binds_loosest(s: Seq<u8>, o1: BinaryOp, o2: BinaryOp)
    requires
        spec_tokens(s).len() == 5,
        number_token(s, spec_tokens(s)[0]),
        number_token(s, spec_tokens(s)[2]),
        number_token(s, spec_tokens(s)[4]),
        binary_op_of(token_text(s, spec_tokens(s)[1])) == Some(o1),
        binary_op_of(token_text(s, spec_tokens(s)[3])) == Some(o2),
        o1 == BinaryOp::Add || o1 == BinaryOp::Sub,
    ensures
        (o2 != BinaryOp::Add && o2 != BinaryOp::Sub) ==> spec_parse_text(s) == Ok::<
            Seq<Instr>,
            super::grammar::MathError,
        >(
            seq![
                Instr::Number(spec_tokens(s)[0]),
                Instr::Number(spec_tokens(s)[2]),
                Instr::Number(spec_tokens(s)[4]),
                Instr::Binary(o2),
                Instr::Binary(o1),
            ],
        ),
        (o2 == BinaryOp::Add || o2 == BinaryOp::Sub) ==> spec_parse_text(s) == Ok::<
            Seq<Instr>,
            super::grammar::MathError,
        >(
            seq![
                Instr::Number(spec_tokens(s)[0]),
                Instr::Number(spec_tokens(s)[2]),
                Instr::Binary(o1),
                Instr::Number(spec_tokens(s)[4]),
                Instr::Binary(o2),
            ],
        ),
{
    lemma_operator_ranks();
    lemma_read_precedence(s, o1, o2);
}

} // verus!
