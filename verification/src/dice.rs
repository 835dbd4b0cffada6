//! Dice notation (`2d6`, `1d20 2d4`) and rolling.

use vstd::prelude::*;
use crate::text::chars::{chars_of, digit_char, push_chars, push_decimal, dec, string_from_chars};

verus! {

/// Whether `c` has the Unicode `White_Space` property (`char::is_whitespace`).
pub open spec fn is_white_space(c: char) -> bool {
    let u = c as u32;
    (0x09 <= u <= 0x0d) || u == 0x20 || u == 0x85 || u == 0xa0 || u == 0x1680 || (0x2000 <= u
        <= 0x200a) || u == 0x2028 || u == 0x2029 || u == 0x202f || u == 0x205f || u == 0x3000
}

/// Whether `c` is ASCII punctuation (`char::is_ascii_punctuation`).
pub open spec fn is_ascii_punct(c: char) -> bool {
    let u = c as u32;
    (0x21 <= u <= 0x2f) || (0x3a <= u <= 0x40) || (0x5b <= u <= 0x60) || (0x7b <= u <= 0x7e)
}

/// Whether `c` separates dice sets.
pub open spec fn is_sep(c: char) -> bool {
    is_white_space(c) || is_ascii_punct(c)
}

/// End (exclusive) of the run of non-separators that starts at `i`.
pub open spec fn piece_end(cs: Seq<char>, i: int) -> int
    decreases cs.len() - i,
{
    if 0 <= i < cs.len() && !is_sep(cs[i]) {
        piece_end(cs, i + 1)
    } else {
        i
    }
}

/// The non-empty pieces of `cs` from `i` on, split at separators.
pub open spec fn pieces_from(cs: Seq<char>, i: int) -> Seq<Seq<char>>
    decreases cs.len() - i,
{
    if i < 0 || i >= cs.len() {
        Seq::empty()
    } else if is_sep(cs[i]) {
        pieces_from(cs, i + 1)
    } else {
        let j = piece_end(cs, i);
        if i < j <= cs.len() {
            seq![cs.subrange(i, j)] + pieces_from(cs, j)
        } else {
            Seq::empty()
        }
    }
}

/// Whether `c` is an ASCII digit.
pub open spec fn is_dec_digit(c: char) -> bool {
    '0' <= c <= '9'
}

/// The value of a string of decimal digits.
pub open spec fn decimal_value(cs: Seq<char>) -> nat
    decreases cs.len(),
{
    if cs.len() == 0 {
        0
    } else {
        decimal_value(cs.drop_last()) * 10 + (cs.last() as nat - '0' as nat) as nat
    }
}

/// `cs` without one leading `+`, if it has one.
pub open spec fn strip_plus(cs: Seq<char>) -> Seq<char> {
    if cs.len() > 0 && cs[0] == '+' {
        cs.drop_first()
    } else {
        cs
    }
}

/// `NonZero::<uN>::from_str` with `max == uN::MAX`: an optional `+`, then one or more
/// digits whose value is between 1 and `max`.
pub open spec fn parse_nonzero(cs: Seq<char>, max: nat) -> Option<nat> {
    if strip_plus(cs).len() > 0 && (forall|i: int|
        0 <= i < strip_plus(cs).len() ==> is_dec_digit(#[trigger] strip_plus(cs)[i])) && 0
        < decimal_value(strip_plus(cs)) <= max {
        Some(decimal_value(strip_plus(cs)))
    } else {
        None
    }
}

/// The position of the first `d` or `D` from `i` on (`cs.len()` if there is none).
pub open spec fn first_d(cs: Seq<char>, i: int) -> int
    decreases cs.len() - i,
{
    if i < 0 || i >= cs.len() {
        cs.len() as int
    } else if cs[i] == 'd' || cs[i] == 'D' {
        i
    } else {
        first_d(cs, i + 1)
    }
}

/// A number of dice, each with a number of faces.
#[derive(Clone, Copy, Debug)]
pub struct DiceSet {
    count: u8,
    faces: u16,
}

/// The error for any input that is not dice notation.
#[derive(Clone, Copy, Debug, PartialEq, Eq, Structural)]
pub struct DiceParseError;

impl DiceParseError {
    /// The message shown for the error.
    pub fn message(&self) -> (r: String)
        ensures
            r@ == "Expected inputs like '2d6' or '1d20 2d4'. The maximum is '255d65535'."@,
    {
        String::from_str(
            "Expected inputs like '2d6' or '1d20 2d4'. The maximum is '255d65535'.",
        )
    }
}

impl DiceSet {
    #[verifier::type_invariant]
    spec fn inv(self) -> bool {
        self.count > 0 && self.faces > 0
    }

    /// The number of dice.
    pub closed spec fn spec_count(self) -> u8 {
        self.count
    }

    /// The number of faces of each die.
    pub closed spec fn spec_faces(self) -> u16 {
        self.faces
    }

    /// The number of dice; never zero.
    pub fn count(&self) -> (r: u8)
        ensures
            r == self.spec_count(),
            r > 0,
    {
        proof {
            use_type_invariant(self);
        }
        self.count
    }

    /// The number of faces of each die; never zero.
    pub fn faces(&self) -> (r: u16)
        ensures
            r == self.spec_faces(),
            r > 0,
    {
        proof {
            use_type_invariant(self);
        }
        self.faces
    }

    /// Parses a dice set like `2d6` (`FromStr`).
    pub fn from_str(s: &str) -> (r: Result<DiceSet, DiceParseError>)
        ensures
            r matches Ok(d) ==> spec_parse_dice_set(s@) == Some((d.spec_count(), d.spec_faces())),
            r is Err ==> spec_parse_dice_set(s@) is None,
    {
        let cs = chars_of(s);
        match parse_dice_set(cs.as_slice(), 0, cs.len()) {
            Some(d) => {
                assert(cs@.subrange(0, cs@.len() as int) =~= s@);
                Ok(d)
            },
            None => {
                assert(cs@.subrange(0, cs@.len() as int) =~= s@);
                Err(DiceParseError)
            },
        }
    }
}

/// The count and faces of a dice set written as `cs`, if it is one.
pub open spec fn spec_parse_dice_set(cs: Seq<char>) -> Option<(u8, u16)> {
    let k = first_d(cs, 0);
    if k < cs.len() {
        match (parse_nonzero(cs.take(k), 255), parse_nonzero(cs.skip(k + 1), 65535)) {
            (Some(a), Some(b)) => Some((a as u8, b as u16)),
            _ => None,
        }
    } else {
        None
    }
}

/// The value of the digits, capped at `cap`.
pub open spec fn capped_value(cs: Seq<char>, cap: nat) -> nat {
    if decimal_value(cs) < cap {
        decimal_value(cs)
    } else {
        cap
    }
}

/// Parses `cs[start..end]` as `NonZero` number at most `max`.
fn parse_nonzero_at(cs: &[char], start: usize, end: usize, max: u32) -> (r: Option<u32>)
    requires
        start <= end <= cs@.len(),
        max <= 65535,
    ensures
        r matches Some(v) ==> parse_nonzero(cs@.subrange(start as int, end as int), max as nat)
            == Some(v as nat),
        r is None ==> parse_nonzero(cs@.subrange(start as int, end as int), max as nat) is None,
{
    let ghost whole = cs@.subrange(start as int, end as int);
    let mut i = start;
    if i < end && cs[i] == '+' {
        i = i + 1;
    }
    let ghost ds = cs@.subrange(i as int, end as int);
    assert(ds =~= strip_plus(whole));
    if i == end {
        return None;
    }
    let cap: u32 = max + 1;
    let mut value: u32 = 0;
    let mut k = i;
    while k < end
        invariant
            i <= k <= end <= cs@.len(),
            ds == cs@.subrange(i as int, end as int),
            ds == strip_plus(whole),
            whole == cs@.subrange(start as int, end as int),
            start <= i,
            cap == max + 1,
            max <= 65535,
            forall|m: int| i <= m < k ==> is_dec_digit(#[trigger] cs@[m]),
            value == capped_value(cs@.subrange(i as int, k as int), cap as nat),
        decreases end - k,
    {
        let c = cs[k];
        if !('0' <= c && c <= '9') {
            assert(!is_dec_digit(strip_plus(whole)[k - i]));
            return None;
        }
        let d = (c as u32) - ('0' as u32);
        proof {
            let pre = cs@.subrange(i as int, k as int);
            let next = cs@.subrange(i as int, k + 1);
            assert(next.drop_last() =~= pre);
            assert(next.last() == c);
        }
        value = if value * 10 + d < cap {
            value * 10 + d
        } else {
            cap
        };
        k = k + 1;
    }
    assert(cs@.subrange(i as int, end as int) =~= ds);
    if value == 0 || value > max {
        None
    } else {
        Some(value)
    }
}

/// Finds the first `d` or `D` in `cs[start..end]`.
fn find_d(cs: &[char], start: usize, end: usize) -> (r: usize)
    requires
        start <= end <= cs@.len(),
    ensures
        start <= r <= end,
        r - start == first_d(cs@.subrange(start as int, end as int), 0) || (r == end && first_d(
            cs@.subrange(start as int, end as int),
            0,
        ) == end - start),
{
    let ghost w = cs@.subrange(start as int, end as int);
    let mut i = start;
    while i < end
        invariant
            start <= i <= end <= cs@.len(),
            w == cs@.subrange(start as int, end as int),
            first_d(w, 0) == first_d(w, i - start),
        decreases end - i,
    {
        if cs[i] == 'd' || cs[i] == 'D' {
            assert(w[i - start] == cs@[i as int]);
            return i;
        }
        assert(w[i - start] == cs@[i as int]);
        i = i + 1;
    }
    i
}

/// Parses `cs[start..end]` as a dice set.
fn parse_dice_set(cs: &[char], start: usize, end: usize) -> (r: Option<DiceSet>)
    requires
        start <= end <= cs@.len(),
    ensures
        r matches Some(d) ==> spec_parse_dice_set(cs@.subrange(start as int, end as int)) == Some(
            (d.spec_count(), d.spec_faces()),
        ),
        r is None ==> spec_parse_dice_set(cs@.subrange(start as int, end as int)) is None,
{
    let ghost w = cs@.subrange(start as int, end as int);
    let k = find_d(cs, start, end);
    if k == end {
        return None;
    }
    assert(w.take(k - start) =~= cs@.subrange(start as int, k as int));
    assert(w.skip(k - start + 1) =~= cs@.subrange(k + 1, end as int));
    let count = parse_nonzero_at(cs, start, k, 255);
    let faces = parse_nonzero_at(cs, k + 1, end, 65535);
    match (count, faces) {
        (Some(c), Some(f)) => Some(DiceSet { count: c as u8, faces: f as u16 }),
        _ => None,
    }
}

/// A non-empty list of dice sets.
#[derive(Debug)]
pub struct DiceSetVec(Vec<DiceSet>);

impl DiceSetVec {
    #[verifier::type_invariant]
    spec fn inv(self) -> bool {
        self.0@.len() > 0
    }

    /// The dice sets.
    pub closed spec fn sets(self) -> Seq<DiceSet> {
        self.0@
    }

    /// Wraps a list of dice sets if it is not empty.
    pub fn from_vec(vec: Vec<DiceSet>) -> (r: Option<DiceSetVec>)
        ensures
            r is Some <==> vec@.len() > 0,
            r matches Some(v) ==> v.sets() == vec@,
    {
        if vec.len() > 0 {
            Some(DiceSetVec(vec))
        } else {
            None
        }
    }

    /// Returns the dice sets.
    pub fn into_vec(self) -> (r: Vec<DiceSet>)
        ensures
            r@ == self.sets(),
            r@.len() > 0,
    {
        proof {
            use_type_invariant(&self);
        }
        self.0
    }

    /// Parses dice sets separated by whitespace or ASCII punctuation (`FromStr`).
    pub fn from_str(s: &str) -> (r: Result<DiceSetVec, DiceParseError>)
        ensures
            r matches Ok(v) ==> spec_parse_dice_sets(s@) == Some(
                v.sets().map_values(|d: DiceSet| (d.spec_count(), d.spec_faces())),
            ),
            r is Err ==> spec_parse_dice_sets(s@) is None,
    {
        let cs = chars_of(s);
        let ghost ps = pieces_from(cs@, 0);
        let mut out: Vec<DiceSet> = Vec::new();
        let mut i: usize = 0;
        proof {
            lemma_pieces_from(cs@, 0);
        }
        while i < cs.len()
            invariant
                0 <= i <= cs@.len(),
                cs@ == s@,
                ps == pieces_from(cs@, 0),
                out@.len() <= i,
                out@.len() <= ps.len(),
                forall|m: int|
                    0 <= m < out@.len() ==> spec_parse_dice_set(ps[m]) == Some(
                        ((#[trigger] out@[m]).spec_count(), out@[m].spec_faces()),
                    ),
                ps.subrange(out@.len() as int, ps.len() as int) == pieces_from(cs@, i as int),
            decreases cs.len() - i,
        {
            if is_separator(cs[i]) {
                i = i + 1;
            } else {
                let mut j = i + 1;
                while j < cs.len() && !is_separator(cs[j])
                    invariant
                        i < j <= cs@.len(),
                        piece_end(cs@, i as int) == piece_end(cs@, j as int),
                    decreases cs.len() - j,
                {
                    j = j + 1;
                }
                proof {
                    lemma_piece_end(cs@, i as int);
                    assert(piece_end(cs@, i as int) == j);
                    assert(pieces_from(cs@, i as int) == seq![cs@.subrange(i as int, j as int)]
                        + pieces_from(cs@, j as int));
                    let rest = ps.subrange(out@.len() as int, ps.len() as int);
                    assert(rest.len() > 0);
                    assert(rest[0] == ps[out@.len() as int]);
                    assert(rest.drop_first() =~= pieces_from(cs@, j as int));
                    assert(ps.subrange(out@.len() + 1int, ps.len() as int) =~= rest.drop_first());
                }
                match parse_dice_set(cs.as_slice(), i, j) {
                    Some(d) => {
                        let ghost old_out = out@;
                        out.push(d);
                        proof {
                            assert forall|m: int| 0 <= m < out@.len() implies spec_parse_dice_set(ps[m])
                                == Some(((#[trigger] out@[m]).spec_count(), out@[m].spec_faces())) by {
                                if m < old_out.len() {
                                    assert(out@[m] == old_out[m]);
                                }
                            }
                        }
                        i = j;
                    },
                    None => {
                        proof {
                            assert(spec_parse_dice_set(ps[out@.len() as int]) is None);
                        }
                        return Err(DiceParseError);
                    },
                }
            }
        }
        proof {
            assert(ps.subrange(out@.len() as int, ps.len() as int).len() == 0);
            assert(out@.len() == ps.len());
        }
        if out.len() == 0 {
            return Err(DiceParseError);
        }
        proof {
            assert forall|m: int| 0 <= m < ps.len() implies (#[trigger] spec_parse_dice_set(ps[m])) is Some by {
                assert(spec_parse_dice_set(ps[m]) == Some((out@[m].spec_count(), out@[m].spec_faces())));
            }
            assert(out@.map_values(|d: DiceSet| (d.spec_count(), d.spec_faces())) =~= ps.map_values(
                |p: Seq<char>| spec_parse_dice_set(p)->0,
            ));
        }
        Ok(DiceSetVec(out))
    }
}

/// Whether `c` separates dice sets.
fn is_separator(c: char) -> (r: bool)
    ensures
        r == is_sep(c),
{
    let u = c as u32;
    (0x09 <= u && u <= 0x0d) || u == 0x20 || u == 0x85 || u == 0xa0 || u == 0x1680 || (0x2000 <= u
        && u <= 0x200a) || u == 0x2028 || u == 0x2029 || u == 0x202f || u == 0x205f || u == 0x3000
        || (0x21 <= u && u <= 0x2f) || (0x3a <= u && u <= 0x40) || (0x5b <= u && u <= 0x60) || (0x7b
        <= u && u <= 0x7e)
}

/// The dice sets written as `cs`: every piece between separators is a dice set, and
/// there is at least one.
pub open spec fn spec_parse_dice_sets(cs: Seq<char>) -> Option<Seq<(u8, u16)>> {
    let ps = pieces_from(cs, 0);
    if ps.len() > 0 && forall|m: int| 0 <= m < ps.len() ==> (#[trigger] spec_parse_dice_set(ps[m])) is Some {
        Some(ps.map_values(|p: Seq<char>| spec_parse_dice_set(p)->0))
    } else {
        None
    }
}

proof fn lemma_piece_end(cs: Seq<char>, i: int)
    requires
        0 <= i <= cs.len(),
    ensures
        i <= piece_end(cs, i) <= cs.len(),
    decreases cs.len() - i,
{
    if i < cs.len() && !is_sep(cs[i]) {
        lemma_piece_end(cs, i + 1);
    }
}

/// The pieces from `i` on number at most `cs.len() - i`.
proof fn lemma_pieces_from(cs: Seq<char>, i: int)
    requires
        0 <= i <= cs.len(),
    ensures
        pieces_from(cs, i).len() <= cs.len() - i,
    decreases cs.len() - i,
{
    if i < cs.len() {
        if is_sep(cs[i]) {
            lemma_pieces_from(cs, i + 1);
        } else {
            lemma_piece_end(cs, i);
            let j = piece_end(cs, i);
            if i < j <= cs.len() {
                lemma_pieces_from(cs, j);
            }
        }
    }
}

/// The sum of some rolls.
pub open spec fn roll_sum(rolls: Seq<u32>) -> nat
    decreases rolls.len(),
{
    if rolls.len() == 0 {
        0
    } else {
        roll_sum(rolls.drop_last()) + rolls.last() as nat
    }
}

/// The rolls, each written after a space.
pub open spec fn rolls_text(rolls: Seq<u32>) -> Seq<char>
    decreases rolls.len(),
{
    if rolls.len() == 0 {
        Seq::empty()
    } else {
        rolls_text(rolls.drop_last()) + seq![' '] + dec(rolls.last() as nat)
    }
}

/// The line for one dice set: `- **2d6:** 3 5 *(∑8)*`. The sum is shown only for more
/// than one die when there is more than one set.
pub open spec fn roll_line(count: u8, faces: u16, rolls: Seq<u32>, several_sets: bool) -> Seq<char> {
    seq!['-', ' ', '*', '*'] + dec(count as nat) + seq!['d'] + dec(faces as nat) + seq![
        ':',
        '*',
        '*',
    ] + rolls_text(rolls) + (if count > 1 && several_sets {
        seq![' ', '*', '(', '\u{2211}'] + dec(roll_sum(rolls)) + seq![')', '*']
    } else {
        Seq::empty()
    }) + seq!['\n']
}

/// The lines for the first `n` dice sets.
pub open spec fn render_rolls(sets: Seq<DiceSet>, rolls: Seq<Seq<u32>>, n: int) -> Seq<char>
    decreases n,
{
    if n <= 0 {
        Seq::empty()
    } else {
        render_rolls(sets, rolls, n - 1) + roll_line(
            sets[n - 1].spec_count(),
            sets[n - 1].spec_faces(),
            rolls[n - 1],
            sets.len() > 1,
        )
    }
}

/// The total of all rolls of the first `n` dice sets.
pub open spec fn total_rolls(rolls: Seq<Seq<u32>>, n: int) -> nat
    decreases n,
{
    if n <= 0 {
        0
    } else {
        total_rolls(rolls, n - 1) + roll_sum(rolls[n - 1])
    }
}

/// The number of dice in the first `n` dice sets.
pub open spec fn dice_count_of(sets: Seq<DiceSet>, n: int) -> nat
    decreases n,
{
    if n <= 0 {
        0
    } else {
        dice_count_of(sets, n - 1) + sets[n - 1].spec_count() as nat
    }
}

/// One roll per die of each set, each between 1 and the set's faces.
pub open spec fn valid_rolls(sets: Seq<DiceSet>, rolls: Seq<Seq<u32>>) -> bool {
    &&& rolls.len() == sets.len()
    &&& forall|i: int|
        0 <= i < sets.len() ==> (#[trigger] rolls[i]).len() == sets[i].spec_count() as nat
    &&& forall|i: int, j: int|
        0 <= i < sets.len() && 0 <= j < rolls[i].len() ==> 1 <= #[trigger] rolls[i][j]
            <= sets[i].spec_faces()
}

proof fn lemma_roll_sum_bound(rolls: Seq<u32>, faces: u16)
    requires
        forall|j: int| 0 <= j < rolls.len() ==> #[trigger] rolls[j] <= faces,
    ensures
        roll_sum(rolls) <= rolls.len() * (faces as nat),
    decreases rolls.len(),
{
    if rolls.len() > 0 {
        lemma_roll_sum_bound(rolls.drop_last(), faces);
        assert(rolls.drop_last().len() * (faces as nat) + faces as nat == rolls.len() * (faces as nat))
            by (nonlinear_arith)
            requires
                rolls.drop_last().len() + 1 == rolls.len(),
        ;
    }
}

proof fn lemma_total_bound(sets: Seq<DiceSet>, rolls: Seq<Seq<u32>>, n: int)
    requires
        valid_rolls(sets, rolls),
        0 <= n <= sets.len(),
    ensures
        total_rolls(rolls, n) <= dice_count_of(sets, n) * 65535,
    decreases n,
{
    if n > 0 {
        lemma_total_bound(sets, rolls, n - 1);
        let r = rolls[n - 1];
        let f = sets[n - 1].spec_faces();
        assert forall|j: int| 0 <= j < r.len() implies #[trigger] r[j] <= f by {
            assert(1 <= rolls[n - 1][j] <= f);
        }
        lemma_roll_sum_bound(r, f);
        assert(r.len() * (f as nat) <= r.len() * 65535) by (nonlinear_arith)
            requires
                f <= 65535,
        ;
    }
}

/// At most 255 dice, each with at most 65535 faces, roll a total of at most
/// 255 * 65535: a roll's total always fits in 32 bits.
pub proof fn lemma_roll_total_fits(sets: Seq<DiceSet>, rolls: Seq<Seq<u32>>)
    requires
        valid_rolls(sets, rolls),
        dice_count_of(sets, sets.len() as int) <= 255,
    ensures
        total_rolls(rolls, sets.len() as int) <= 255 * 65535,
{
    lemma_total_bound(sets, rolls, sets.len() as int);
    assert(dice_count_of(sets, sets.len() as int) * 65535 <= 255 * 65535) by (nonlinear_arith)
        requires
            dice_count_of(sets, sets.len() as int) <= 255,
    ;
}

/// Appends the line for one dice set and its rolls; returns the sum of the rolls.
fn push_roll_line(content: &mut Vec<char>, d: DiceSet, row: &Vec<u32>, several_sets: bool) -> (r: u32)
    requires
        row@.len() == d.spec_count(),
        forall|j: int| 0 <= j < row@.len() ==> #[trigger] row@[j] <= d.spec_faces(),
    ensures
        r == roll_sum(row@),
        r <= row@.len() * 65535,
        final(content)@ == old(content)@ + roll_line(d.spec_count(), d.spec_faces(), row@, several_sets),
{
    let count = d.count();
    let faces = d.faces();
    push_chars(content, &['-', ' ', '*', '*']);
    push_decimal(content, count as u128);
    push_chars(content, &['d']);
    push_decimal(content, faces as u128);
    push_chars(content, &[':', '*', '*']);
    let ghost line_start = content@;
    let mut local_sum: u32 = 0;
    let mut k: usize = 0;
    while k < row.len()
        invariant
            row@.len() == count,
            count == d.spec_count(),
            faces == d.spec_faces(),
            forall|j: int| 0 <= j < row@.len() ==> #[trigger] row@[j] <= faces,
            0 <= k <= row@.len(),
            local_sum == roll_sum(row@.take(k as int)),
            local_sum <= k * 65535,
            content@ == line_start + rolls_text(row@.take(k as int)),
        decreases row.len() - k,
    {
        let roll = row[k];
        assert(row@.take(k + 1).drop_last() =~= row@.take(k as int));
        local_sum = local_sum + roll;
        push_chars(content, &[' ']);
        push_decimal(content, roll as u128);
        k = k + 1;
    }
    assert(row@.take(row@.len() as int) =~= row@);
    if count > 1 && several_sets {
        push_chars(content, &[' ', '*', '(', '\u{2211}']);
        push_decimal(content, local_sum as u128);
        push_chars(content, &[')', '*']);
    }
    push_chars(content, &['\n']);
    local_sum
}

/// Builds the roll report for dice sets and their rolls: the total of all rolls, and
/// one line per set.
pub fn format_dice_rolls(sets: &Vec<DiceSet>, rolls: &Vec<Vec<u32>>) -> (r: (u32, String))
    requires
        valid_rolls(sets@, rolls@.map_values(|v: Vec<u32>| v@)),
        dice_count_of(sets@, sets@.len() as int) <= 255,
    ensures
        r.0 == total_rolls(rolls@.map_values(|v: Vec<u32>| v@), sets@.len() as int),
        r.1@ == render_rolls(sets@, rolls@.map_values(|v: Vec<u32>| v@), sets@.len() as int),
{
    let ghost rv = rolls@.map_values(|v: Vec<u32>| v@);
    let mut content: Vec<char> = Vec::new();
    let mut total_sum: u32 = 0;
    let len = sets.len();
    let mut i: usize = 0;
    while i < len
        invariant
            len == sets@.len(),
            rv == rolls@.map_values(|v: Vec<u32>| v@),
            valid_rolls(sets@, rv),
            dice_count_of(sets@, len as int) <= 255,
            0 <= i <= len,
            total_sum == total_rolls(rv, i as int),
            content@ == render_rolls(sets@, rv, i as int),
        decreases len - i,
    {
        let d = sets[i];
        let row = &rolls[i];
        proof {
            assert(row@ == rv[i as int]);
            assert forall|j: int| 0 <= j < row@.len() implies #[trigger] row@[j] <= d.spec_faces() by {
                assert(1 <= rv[i as int][j] <= sets@[i as int].spec_faces());
            }
        }
        let local_sum = push_roll_line(&mut content, d, row, len > 1);
        proof {
            lemma_total_bound(sets@, rv, i + 1);
            lemma_count_mono(sets@, i + 1, len as int);
        }
        total_sum = total_sum + local_sum;
        i = i + 1;
    }
    (total_sum, string_from_chars(content))
}

proof fn lemma_count_mono(sets: Seq<DiceSet>, a: int, b: int)
    requires
        0 <= a <= b,
    ensures
        dice_count_of(sets, a) <= dice_count_of(sets, b),
    decreases b - a,
{
    if a < b {
        lemma_count_mono(sets, a, b - 1);
    }
}

#[verifier::external_type_specification]
#[verifier::external_body]
pub struct ExThreadRng(rand::rngs::ThreadRng);

/// `rand::thread_rng`: a handle to the thread-local random number generator.
#[verifier::external_body]
fn new_thread_rng() -> rand::rngs::ThreadRng {
    rand::thread_rng()
}

/// `Rng::sample` with the distribution `Uniform::new_inclusive(low, high)`: a random
/// number between `low` and `high`, both included. Which one is left to chance.
/// `Uniform::new_inclusive` panics when `low > high`, which `requires` rules out.
#[verifier::external_body]
fn sample_inclusive(rng: &mut rand::rngs::ThreadRng, low: u32, high: u32) -> (r: u32)
    requires
        low <= high,
    ensures
        low <= r <= high,
{
    rand::Rng::sample(rng, rand::distributions::Uniform::new_inclusive(low, high))
}

/// Rolls every die of every set.
fn roll_sets(sets: &Vec<DiceSet>) -> (r: Vec<Vec<u32>>)
    ensures
        valid_rolls(sets@, r@.map_values(|v: Vec<u32>| v@)),
{
    let mut rng = new_thread_rng();
    let mut out: Vec<Vec<u32>> = Vec::new();
    let mut i: usize = 0;
    while i < sets.len()
        invariant
            0 <= i <= sets@.len(),
            out@.len() == i,
            forall|m: int| 0 <= m < i ==> (#[trigger] out@[m])@.len() == sets@[m].spec_count() as nat,
            forall|m: int, j: int|
                0 <= m < i && 0 <= j < out@[m]@.len() ==> 1 <= #[trigger] out@[m]@[j]
                    <= sets@[m].spec_faces(),
        decreases sets.len() - i,
    {
        let d = sets[i];
        let count = d.count();
        let faces = d.faces();
        let mut row: Vec<u32> = Vec::new();
        let mut k: u8 = 0;
        while k < count
            invariant
                row@.len() == k,
                k <= count,
                faces >= 1,
                forall|j: int| 0 <= j < row@.len() ==> 1 <= #[trigger] row@[j] <= faces,
            decreases count - k,
        {
            let roll = sample_inclusive(&mut rng, 1, faces as u32);
            row.push(roll);
            k = k + 1;
        }
        out.push(row);
        i = i + 1;
    }
    let ghost rv = out@.map_values(|v: Vec<u32>| v@);
    assert forall|m: int| 0 <= m < sets@.len() implies (#[trigger] rv[m]).len() == sets@[m].spec_count() as nat by {
        assert(rv[m] == out@[m]@);
    }
    assert forall|m: int, j: int| 0 <= m < sets@.len() && 0 <= j < rv[m].len() implies 1 <= #[trigger] rv[m][j]
        <= sets@[m].spec_faces() by {
        assert(rv[m] == out@[m]@);
    }
    out
}

/// Rolls the dice and builds the report: the total of all rolls and one line per set.
pub fn get_dice_roll_result(sets: Vec<DiceSet>) -> (r: (u32, String))
    requires
        dice_count_of(sets@, sets@.len() as int) <= 255,
    ensures
        exists|rolls: Seq<Seq<u32>>|
            {
                &&& valid_rolls(sets@, rolls)
                &&& r.0 == total_rolls(rolls, sets@.len() as int)
                &&& r.1@ == render_rolls(sets@, rolls, sets@.len() as int)
            },
{
    let rolls = roll_sets(&sets);
    let r = format_dice_rolls(&sets, &rolls);
    assert(valid_rolls(sets@, rolls@.map_values(|v: Vec<u32>| v@)));
    r
}

/// The error when more than 255 dice are requested at once.
#[derive(Clone, Copy, Debug, PartialEq, Eq, Structural)]
pub struct TooManyDice;

impl TooManyDice {
    /// The message shown for the error.
    pub fn message(&self) -> (r: String)
        ensures
            r@ == "You can't roll more than 255 dice at once."@,
    {
        String::from_str("You can't roll more than 255 dice at once.")
    }
}

/// The reply to a dice roll.
pub struct DiceRoll {
    /// `Total ∑` and the total.
    pub title: String,
    /// One line per dice set.
    pub description: String,
}

/// The title of a roll with the given total.
pub open spec fn roll_title(total: nat) -> Seq<char> {
    seq!['T', 'o', 't', 'a', 'l', ' ', '\u{2211}'] + dec(total)
}

/// Rolls some dice: refuses more than 255 dice in all, else rolls each and reports
/// the total and each set's rolls.
pub fn dice(sets: DiceSetVec) -> (r: Result<DiceRoll, TooManyDice>)
    ensures
        r is Err <==> dice_count_of(sets.sets(), sets.sets().len() as int) > 255,
        r matches Ok(roll) ==> exists|rolls: Seq<Seq<u32>>|
            {
                &&& valid_rolls(sets.sets(), rolls)
                &&& roll.title@ == roll_title(total_rolls(rolls, sets.sets().len() as int))
                &&& roll.description@ == render_rolls(sets.sets(), rolls, sets.sets().len() as int)
            },
{
    let ghost all = sets.sets();
    let sets = sets.into_vec();
    let mut dice_count: u32 = 0;
    let mut i: usize = 0;
    #[verifier::loop_isolation(false)]
    while i < sets.len()
        invariant
            sets@ == all,
            0 <= i <= sets@.len(),
            dice_count == dice_count_of(sets@, i as int),
            dice_count <= 255,
        decreases sets.len() - i,
    {
        dice_count = dice_count + sets[i].count() as u32;
        if dice_count > 255 {
            proof {
                assert(dice_count_of(sets@, i + 1) == dice_count_of(sets@, i as int)
                    + sets@[i as int].spec_count());
                lemma_count_mono(sets@, i + 1, sets@.len() as int);
            }
            return Err(TooManyDice);
        }
        i = i + 1;
    }
    let (total_sum, content) = get_dice_roll_result(sets);
    let mut title: Vec<char> = Vec::new();
    push_chars(&mut title, &['T', 'o', 't', 'a', 'l', ' ', '\u{2211}']);
    push_decimal(&mut title, total_sum as u128);
    Ok(DiceRoll { title: string_from_chars(title), description: content })
}

proof fn lemma_digit_char(d: nat)
    requires
        d < 10,
    ensures
        is_dec_digit(digit_char(d)),
        digit_char(d) as nat - '0' as nat == d,
{
}

/// The decimal representation of a number is a non-empty string of digits whose
/// value is the number.
proof fn lemma_dec_digits(n: nat)
    ensures
        dec(n).len() > 0,
        forall|i: int| 0 <= i < dec(n).len() ==> is_dec_digit(#[trigger] dec(n)[i]),
        decimal_value(dec(n)) == n,
    decreases n,
{
    lemma_digit_char(n % 10);
    if n >= 10 {
        lemma_dec_digits(n / 10);
        let s = dec(n / 10);
        assert(dec(n).drop_last() =~= s);
        assert forall|i: int| 0 <= i < dec(n).len() implies is_dec_digit(#[trigger] dec(n)[i]) by {
            if i < s.len() {
                assert(dec(n)[i] == s[i]);
            }
        }
        assert(decimal_value(s) * 10 + (n % 10) == n) by (nonlinear_arith)
            requires
                decimal_value(s) == n / 10,
        ;
        assert(dec(n).last() == digit_char(n % 10));
        assert(decimal_value(dec(n)) == decimal_value(s) * 10 + (n % 10));
    } else {
        assert(dec(n).drop_last() =~= Seq::<char>::empty());
        assert(dec(n).last() == digit_char(n % 10));
        assert(decimal_value(dec(n)) == decimal_value(Seq::<char>::empty()) * 10 + (n % 10));
    }
}

proof fn lemma_first_d_skips_digits(cs: Seq<char>, i: int, k: int)
    requires
        0 <= i <= k < cs.len(),
        forall|j: int| i <= j < k ==> is_dec_digit(#[trigger] cs[j]),
        cs[k] == 'd',
    ensures
        first_d(cs, i) == k,
    decreases k - i,
{
    if i < k {
        lemma_first_d_skips_digits(cs, i + 1, k);
    }
}

proof fn lemma_parse_dec(n: nat, max: nat)
    requires
        1 <= n <= max,
    ensures
        parse_nonzero(dec(n), max) == Some(n),
{
    lemma_dec_digits(n);
    assert(strip_plus(dec(n)) == dec(n)) by {
        assert(is_dec_digit(dec(n)[0]));
    }
}

/// A dice set written as `NdM`, the way a roll names it, parses back to that set.
pub proof fn lemma_dice_set_roundtrip(count: u8, faces: u16)
    requires
        1 <= count,
        1 <= faces,
    ensures
        spec_parse_dice_set(dec(count as nat) + seq!['d'] + dec(faces as nat)) == Some((count, faces)),
{
    let a = dec(count as nat);
    let b = dec(faces as nat);
    let cs = a + seq!['d'] + b;
    lemma_dec_digits(count as nat);
    lemma_dec_digits(faces as nat);
    assert forall|j: int| 0 <= j < a.len() implies is_dec_digit(#[trigger] cs[j]) by {
        assert(cs[j] == a[j]);
    }
    lemma_first_d_skips_digits(cs, 0, a.len() as int);
    assert(cs.take(a.len() as int) =~= a);
    assert(cs.skip(a.len() as int + 1) =~= b);
    lemma_parse_dec(count as nat, 255);
    lemma_parse_dec(faces as nat, 65535);
}

} // verus!
