use vstd::prelude::*;
use super::token::{
    Token, spec_tokens, token_text, tokens_from, word_end, is_ws, is_special, is_word, lemma_word_end,
    split_tokens,
};
use super::ops::text_is;
use super::grammar::{MathError, tok, last, adv, tok_is};

verus! {

/// A tokenized text with a read position.
pub struct TokenStream {
    /// The full text.
    pub text: Vec<u8>,
    /// All tokens of the text.
    pub tokens: Vec<Token>,
    /// The number of tokens read so far.
    pub pos: usize,
}

impl TokenStream {
    /// The tokens are those of the text, and the position lies within them.
    pub open spec fn wf(&self) -> bool {
        &&& self.tokens@ == spec_tokens(self.text@)
        &&& self.pos <= self.tokens@.len()
        &&& self.text@.len() <= usize::MAX
    }
}

/// Facts about the tokens from byte `i` on: each lies within the text, after `i`,
/// and carries its position.
pub proof fn lemma_tokens_from(s: Seq<u8>, i: int, k: int)
    requires
        0 <= k <= i <= s.len(),
        s.len() <= usize::MAX,
    ensures
        tokens_from(s, i, k).len() <= s.len() - i,
        forall|m: int|
            0 <= m < tokens_from(s, i, k).len() ==> {
                let t = #[trigger] tokens_from(s, i, k)[m];
                &&& i <= t.start < t.end <= s.len()
                &&& t.token_index == k + m
            },
    decreases s.len() - i,
{
    if i < s.len() {
        if is_ws(s[i]) {
            lemma_tokens_from(s, i + 1, k);
        } else if is_special(s[i]) {
            lemma_tokens_from(s, i + 1, k + 1);
            let rest = tokens_from(s, i + 1, k + 1);
            assert forall|m: int| 1 <= m < tokens_from(s, i, k).len() implies
                #[trigger] tokens_from(s, i, k)[m] == rest[m - 1] by {}
        } else {
            let j = word_end(s, i);
            lemma_word_end(s, i);
            if i < j <= s.len() {
                lemma_tokens_from(s, j, k + 1);
                let rest = tokens_from(s, j, k + 1);
                assert forall|m: int| 1 <= m < tokens_from(s, i, k).len() implies
                    #[trigger] tokens_from(s, i, k)[m] == rest[m - 1] by {}
            }
        }
    }
}

/// Facts about all tokens of a text.
pub proof fn lemma_tokens(s: Seq<u8>)
    requires
        s.len() <= usize::MAX,
    ensures
        spec_tokens(s).len() <= s.len(),
        forall|m: int|
            0 <= m < spec_tokens(s).len() ==> {
                let t = #[trigger] spec_tokens(s)[m];
                &&& t.start < t.end <= s.len()
                &&& t.token_index == m
            },
{
    lemma_tokens_from(s, 0, 0);
}

/// The non-whitespace bytes of `s` from byte `i` on, in order.
pub open spec fn strip_ws_from(s: Seq<u8>, i: int) -> Seq<u8>
    decreases s.len() - i,
{
    if i < 0 || i >= s.len() {
        Seq::empty()
    } else if is_ws(s[i]) {
        strip_ws_from(s, i + 1)
    } else {
        seq![s[i]] + strip_ws_from(s, i + 1)
    }
}

/// `s` with all whitespace removed.
pub open spec fn without_ws(s: Seq<u8>) -> Seq<u8> {
    strip_ws_from(s, 0)
}

/// The texts of the tokens `ts` of `s`, one after the other.
pub open spec fn joined_texts(s: Seq<u8>, ts: Seq<Token>) -> Seq<u8>
    decreases ts.len(),
{
    if ts.len() == 0 {
        Seq::empty()
    } else {
        token_text(s, ts[0]) + joined_texts(s, ts.drop_first())
    }
}

/// A token is either exactly one special byte, or a non-empty run of bytes that are
/// neither whitespace nor special.
pub open spec fn token_shape(s: Seq<u8>, t: Token) -> bool {
    ||| t.end == t.start + 1 && is_special(s[t.start as int])
    ||| t.start < t.end && forall|x: int| t.start <= x < t.end ==> is_word(#[trigger] s[x])
}

/// Between the tokens `a` and `b` that follow each other there is only whitespace, and
/// at least one whitespace byte when both are words.
pub open spec fn token_gap(s: Seq<u8>, a: Token, b: Token) -> bool {
    &&& a.end <= b.start
    &&& forall|x: int| a.end <= x < b.start ==> is_ws(#[trigger] s[x])
    &&& (is_word(s[a.start as int]) && is_word(s[b.start as int]) ==> a.end < b.start)
}

proof fn lemma_strip_word(s: Seq<u8>, i: int, j: int)
    requires
        0 <= i <= j <= s.len(),
        forall|x: int| i <= x < j ==> is_word(#[trigger] s[x]),
    ensures
        strip_ws_from(s, i) == s.subrange(i, j) + strip_ws_from(s, j),
    decreases j - i,
{
    if i < j {
        lemma_strip_word(s, i + 1, j);
        assert(is_word(s[i]));
        assert(s.subrange(i, j) =~= seq![s[i]] + s.subrange(i + 1, j));
        assert(seq![s[i]] + (s.subrange(i + 1, j) + strip_ws_from(s, j)) =~= (seq![s[i]] + s.subrange(
            i + 1,
            j,
        )) + strip_ws_from(s, j));
    } else {
        assert(s.subrange(i, j) =~= Seq::<u8>::empty());
        assert(Seq::<u8>::empty() + strip_ws_from(s, j) =~= strip_ws_from(s, j));
    }
}

proof fn lemma_tokens_law_from(s: Seq<u8>, i: int, k: int)
    requires
        0 <= k <= i <= s.len(),
        s.len() <= usize::MAX,
    ensures
        joined_texts(s, tokens_from(s, i, k)) == strip_ws_from(s, i),
        forall|m: int| 0 <= m < tokens_from(s, i, k).len() ==> token_shape(s, #[trigger] tokens_from(s, i, k)[m]),
        tokens_from(s, i, k).len() > 0 ==> {
            let t = tokens_from(s, i, k)[0];
            &&& i <= t.start
            &&& forall|x: int| i <= x < t.start ==> is_ws(#[trigger] s[x])
        },
        forall|m: int|
            0 <= m < tokens_from(s, i, k).len() - 1 ==> #[trigger] token_gap(
                s,
                tokens_from(s, i, k)[m],
                tokens_from(s, i, k)[m + 1],
            ),
    decreases s.len() - i,
{
    let ts = tokens_from(s, i, k);
    lemma_tokens_from(s, i, k);
    if i < s.len() {
        if is_ws(s[i]) {
            lemma_tokens_law_from(s, i + 1, k);
        } else {
            let j = if is_special(s[i]) { i + 1 } else { word_end(s, i) };
            if !is_special(s[i]) {
                lemma_word_end(s, i);
                lemma_word_end(s, i + 1);
                assert(word_end(s, i) == word_end(s, i + 1));
            }
            let rest = tokens_from(s, j, k + 1);
            lemma_tokens_from(s, j, k + 1);
            lemma_tokens_law_from(s, j, k + 1);
            let t = Token { start: i as usize, end: j as usize, token_index: k as usize };
            assert(ts == seq![t] + rest);
            assert(ts.drop_first() =~= rest);
            assert(forall|m: int| 0 < m < ts.len() ==> #[trigger] ts[m] == rest[m - 1]);
            if is_special(s[i]) {
                assert(token_text(s, t) =~= seq![s[i]]);
            } else {
                lemma_strip_word(s, i, j);
            }
            assert(token_shape(s, t));
            assert forall|m: int| 0 <= m < ts.len() implies token_shape(s, #[trigger] ts[m]) by {
                if m > 0 {
                    assert(ts[m] == rest[m - 1]);
                }
            }
            assert forall|m: int| 0 <= m < ts.len() - 1 implies #[trigger] token_gap(s, ts[m], ts[m + 1]) by {
                if m == 0 {
                    let b = rest[0];
                    assert(ts[1] == b);
                    if !is_special(s[i]) && is_word(s[b.start as int]) && b.start == j {
                        assert(j < s.len());
                        assert(!is_word(s[j]));
                    }
                } else {
                    assert(ts[m] == rest[m - 1]);
                    assert(ts[m + 1] == rest[m]);
                    assert(token_gap(s, rest[m - 1], rest[(m - 1) + 1]));
                }
            }
        }
    }
}

/// What tokenizing a text gives: the token texts, one after the other, are the text
/// without its whitespace; each token is a single special byte (`+ - * / % ^ ( ) ,`)
/// or a run of other non-whitespace bytes; between tokens there is only whitespace,
/// and at least one whitespace byte between two words; and the `m`-th token has index
/// `m`.
pub proof fn lemma_tokenize_law(s: Seq<u8>)
    requires
        s.len() <= usize::MAX,
    ensures
        joined_texts(s, spec_tokens(s)) == without_ws(s),
        forall|m: int|
            0 <= m < spec_tokens(s).len() ==> token_shape(s, #[trigger] spec_tokens(s)[m])
                && spec_tokens(s)[m].token_index == m,
        forall|m: int|
            0 <= m < spec_tokens(s).len() - 1 ==> #[trigger] token_gap(
                s,
                spec_tokens(s)[m],
                spec_tokens(s)[m + 1],
            ),
{
    lemma_tokens(s);
    lemma_tokens_law_from(s, 0, 0);
}

/// Returns a kind-of iterator to the tokens.
pub fn tokenize(text: &[u8]) -> (r: TokenStream)
    ensures
        r.wf(),
        r.text@ == text@,
        r.pos == 0,
{
    let tokens = split_tokens(text);
    let _n = text.len();
    let mut owned: Vec<u8> = Vec::new();
    let mut i: usize = 0;
    while i < text.len()
        invariant
            0 <= i <= text@.len(),
            owned@ == text@.subrange(0, i as int),
        decreases text.len() - i,
    {
        owned.push(text[i]);
        i = i + 1;
    }
    assert(owned@ =~= text@);
    TokenStream { text: owned, tokens, pos: 0 }
}

/// A kind-of iterator for tokenizing.
pub trait Tokenizer {
    /// Reads the next token, or [`None`] if exhausted.
    fn next(&mut self) -> Option<Token>;

    /// Returns the next token without reading it.
    fn peek(&self) -> Option<Token>;

    /// Returns the last token returned by [`Tokenizer::next`].
    fn last_token(&self) -> Option<Token>;

    /// Returns a [`MathError::ExprExpected`] matching the last token.
    fn expr_expected(&self) -> MathError;
}

impl TokenStream {
    /// Reads the next token, or [`None`] if exhausted.
    pub fn next_token(&mut self) -> (r: Option<Token>)
        requires
            old(self).wf(),
        ensures
            final(self).wf(),
            final(self).text@ == old(self).text@,
            final(self).tokens@ == old(self).tokens@,
            r == tok(old(self).tokens@, old(self).pos as int),
            final(self).pos == adv(old(self).tokens@, old(self).pos as int),
    {
        if self.pos < self.tokens.len() {
            let t = self.tokens[self.pos];
            self.pos = self.pos + 1;
            Some(t)
        } else {
            None
        }
    }

    /// Returns the next token without reading it.
    pub fn peek_token(&self) -> (r: Option<Token>)
        requires
            self.wf(),
        ensures
            r == tok(self.tokens@, self.pos as int),
    {
        if self.pos < self.tokens.len() {
            Some(self.tokens[self.pos])
        } else {
            None
        }
    }

    /// Returns the most recently read token.
    pub fn last_read(&self) -> (r: Option<Token>)
        requires
            self.wf(),
        ensures
            r == last(self.tokens@, self.pos as int),
    {
        if self.pos > 0 {
            Some(self.tokens[self.pos - 1])
        } else {
            None
        }
    }

    /// Whether `t`, a token of this text or none, has the text `lit`.
    pub fn is(&self, t: Option<Token>, lit: &[u8]) -> (r: bool)
        requires
            self.wf(),
            t matches Some(t) ==> t.start <= t.end <= self.text@.len(),
        ensures
            r == tok_is(self.text@, t, lit@),
    {
        match t {
            Some(t) => {
                proof {
                    lemma_tokens(self.text@);
                }
                text_is(self.text.as_slice(), t, lit)
            },
            None => false,
        }
    }
}

impl Tokenizer for TokenStream {
    fn next(&mut self) -> (r: Option<Token>)
        ensures
            final(self).text@ == old(self).text@,
            final(self).tokens@ == old(self).tokens@,
            r == tok(old(self).tokens@, old(self).pos as int),
            final(self).pos == adv(old(self).tokens@, old(self).pos as int),
    {
        if self.pos < self.tokens.len() {
            let t = self.tokens[self.pos];
            self.pos = self.pos + 1;
            Some(t)
        } else {
            None
        }
    }

    fn peek(&self) -> (r: Option<Token>)
        ensures
            r == tok(self.tokens@, self.pos as int),
    {
        if self.pos < self.tokens.len() {
            Some(self.tokens[self.pos])
        } else {
            None
        }
    }

    fn last_token(&self) -> (r: Option<Token>)
        ensures
            r == last(self.tokens@, self.pos as int),
    {
        if self.pos > 0 && self.pos <= self.tokens.len() {
            Some(self.tokens[self.pos - 1])
        } else {
            None
        }
    }

    fn expr_expected(&self) -> (r: MathError)
        ensures
            r == MathError::ExprExpected(last(self.tokens@, self.pos as int)),
    {
        MathError::ExprExpected(self.last_token())
    }
}

} // verus!
