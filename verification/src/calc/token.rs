use vstd::prelude::*;
use crate::text::chars::{push_chars, push_decimal, dec, string_from_chars};

verus! {

/// Whether a byte counts as ASCII whitespace (`u8::is_ascii_whitespace`).
pub open spec fn is_ws(c: u8) -> bool {
    c == 0x20u8 || c == 0x09u8 || c == 0x0Au8 || c == 0x0Cu8 || c == 0x0Du8
}

/// Whether a byte is one of the single-character tokens.
pub open spec fn is_special(c: u8) -> bool {
    c == 0x2Bu8 /* + */ || c == 0x2Du8 /* - */ || c == 0x2Au8 /* * */ || c == 0x2Fu8 /* / */
    || c == 0x25u8 /* % */ || c == 0x5Eu8 /* ^ */ || c == 0x28u8 /* ( */ || c == 0x29u8 /* ) */
    || c == 0x2Cu8 /* , */
}

/// Whether a byte belongs to a multi-character word token.
pub open spec fn is_word(c: u8) -> bool {
    !is_ws(c) && !is_special(c)
}

/// End (exclusive) of the run of word bytes that starts at `i`.
pub open spec fn word_end(s: Seq<u8>, i: int) -> int
    decreases s.len() - i,
{
    if 0 <= i < s.len() && is_word(s[i]) {
        word_end(s, i + 1)
    } else {
        i
    }
}

/// A token: a range of the tokenized text, and its position among all tokens.
#[derive(Clone, Copy, PartialEq, Eq, Debug, Structural)]
pub struct Token {
    /// Start of the token's text (byte offset into the full text).
    pub start: usize,
    /// End (exclusive) of the token's text.
    pub end: usize,
    /// The index within the tokenized full text.
    pub token_index: usize,
}

/// The tokens of `s` from byte `i` on, the first of which gets index `k`.
///
/// Whitespace separates tokens; each of `+ - * / % ^ ( ) ,` is a token of its own;
/// every maximal run of other bytes is one token.
pub open spec fn tokens_from(s: Seq<u8>, i: int, k: int) -> Seq<Token>
    decreases s.len() - i,
{
    if i < 0 || i >= s.len() {
        Seq::empty()
    } else if is_ws(s[i]) {
        tokens_from(s, i + 1, k)
    } else if is_special(s[i]) {
        seq![Token { start: i as usize, end: (i + 1) as usize, token_index: k as usize }]
            + tokens_from(s, i + 1, k + 1)
    } else {
        let j = word_end(s, i);
        if i < j <= s.len() {
            seq![Token { start: i as usize, end: j as usize, token_index: k as usize }]
                + tokens_from(s, j, k + 1)
        } else {
            Seq::empty()
        }
    }
}

/// All tokens of `s`.
pub open spec fn spec_tokens(s: Seq<u8>) -> Seq<Token> {
    tokens_from(s, 0, 0)
}

/// The text of a token.
pub open spec fn token_text(s: Seq<u8>, t: Token) -> Seq<u8> {
    s.subrange(t.start as int, t.end as int)
}

pub proof fn lemma_word_end(s: Seq<u8>, i: int)
    requires
        0 <= i <= s.len(),
    ensures
        i <= word_end(s, i) <= s.len(),
        forall|k: int| i <= k < word_end(s, i) ==> is_word(#[trigger] s[k]),
        word_end(s, i) < s.len() ==> !is_word(s[word_end(s, i)]),
    decreases s.len() - i,
{
    if i < s.len() && is_word(s[i]) {
        lemma_word_end(s, i + 1);
    }
}

/// Whether `c` is an ASCII whitespace byte.
pub fn is_ws_byte(c: u8) -> (r: bool)
    ensures
        r == is_ws(c),
{
    c == 0x20u8 || c == 0x09u8 || c == 0x0Au8 || c == 0x0Cu8 || c == 0x0Du8
}

/// Whether `c` is a single-character token byte.
pub fn is_special_char(c: u8) -> (r: bool)
    ensures
        r == is_special(c),
{
    c == 0x2Bu8 || c == 0x2Du8 || c == 0x2Au8 || c == 0x2Fu8 || c == 0x25u8 || c == 0x5Eu8
        || c == 0x28u8 || c == 0x29u8 || c == 0x2Cu8
}

/// Splits a text into its tokens.
pub fn split_tokens(text: &[u8]) -> (r: Vec<Token>)
    ensures
        r@ == spec_tokens(text@),
{
    let mut out: Vec<Token> = Vec::new();
    let mut i: usize = 0;
    while i < text.len()
        invariant
            0 <= i <= text.len(),
            out@.len() <= i,
            out@ + tokens_from(text@, i as int, out@.len() as int) == spec_tokens(text@),
        decreases text.len() - i,
    {
        let c = text[i];
        if is_ws_byte(c) {
            i = i + 1;
        } else if is_special_char(c) {
            let t = Token { start: i, end: i + 1, token_index: out.len() };
            proof {
                assert(out@.push(t) + tokens_from(text@, i + 1, out@.len() + 1 as int) == out@ + (seq![t]
                    + tokens_from(text@, i + 1, out@.len() + 1 as int)));
            }
            out.push(t);
            i = i + 1;
        } else {
            let mut j: usize = i + 1;
            proof { lemma_word_end(text@, i as int); }
            while j < text.len() && !is_ws_byte(text[j]) && !is_special_char(text[j])
                invariant
                    i < j <= text.len(),
                    word_end(text@, i as int) == word_end(text@, j as int),
                decreases text.len() - j,
            {
                j = j + 1;
            }
            let t = Token { start: i, end: j, token_index: out.len() };
            proof {
                assert(word_end(text@, i as int) == j as int);
                assert(out@.push(t) + tokens_from(text@, j as int, out@.len() + 1 as int) == out@ + (seq![t]
                    + tokens_from(text@, j as int, out@.len() + 1 as int)));
            }
            out.push(t);
            i = j;
        }
    }
    out
}

/// Prints the position of a token for error messages.
pub struct TokenErrorFmt {
    token: Token,
}

impl Token {
    /// Gets an object that can be used to print error information.
    pub fn error_fmt(self) -> (r: TokenErrorFmt)
        ensures
            r.spec_token() == self,
    {
        TokenErrorFmt { token: self }
    }
}

impl TokenErrorFmt {
    /// The token whose position is printed.
    pub closed spec fn spec_token(self) -> Token {
        self.token
    }

    /// The error information: a line with the token's position, counted from 1.
    pub fn to_string(&self) -> (r: String)
        ensures
            r@ == seq!['\n', '-', '#', ' ', 'P', 'o', 's', 'i', 't', 'i', 'o', 'n', ':', ' '] + dec(
                self.spec_token().token_index as nat + 1,
            ),
    {
        let mut out: Vec<char> = Vec::new();
        push_chars(&mut out, &['\n', '-', '#', ' ', 'P', 'o', 's', 'i', 't', 'i', 'o', 'n', ':', ' ']);
        push_decimal(&mut out, self.token.token_index as u128 + 1);
        string_from_chars(out)
    }
}

} // verus!
