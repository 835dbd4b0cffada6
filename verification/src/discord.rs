//! Text the bot's commands reply with about Discord users, messages and settings.

use vstd::prelude::*;
use crate::text::chars::{chars_of, dec, push_chars, push_decimal, string_from_chars};

verus! {

/// The reply to changing whether responses are hidden.
pub open spec fn hide_message(hidden: bool) -> Seq<char> {
    "Your command usage is now **"@ + (if hidden {
        "hidden"@
    } else {
        "visible"@
    }) + "** to other users."@
}

/// Configures whether responses to a user's commands are hidden: the requested
/// setting, or the opposite of the current one where none is requested; and the
/// reply that reports it.
pub fn config_hide(current: bool, hidden: Option<bool>) -> (r: (bool, String))
    ensures
        r.0 == match hidden {
            Some(h) => h,
            None => !current,
        },
        r.1@ == hide_message(r.0),
{
    let ephemeral = match hidden {
        Some(h) => h,
        None => !current,
    };
    let mut content = String::new();
    content.append("Your command usage is now **");
    content.append(if ephemeral {
        "hidden"
    } else {
        "visible"
    });
    content.append("** to other users.");
    (ephemeral, content)
}

/// The zeros that pad a number's digits to four.
pub open spec fn pad4(digits: Seq<char>) -> Seq<char> {
    if digits.len() < 4 {
        Seq::new((4 - digits.len()) as nat, |i: int| '0') + digits
    } else {
        digits
    }
}

/// A user's unique name: the name, with the discriminator (padded to four digits)
/// where the user still has one.
pub open spec fn unique_username(name: Seq<char>, discriminator: Option<u16>) -> Seq<char> {
    match discriminator {
        Some(d) => name + seq!['#'] + pad4(dec(d as nat)),
        None => name,
    }
}

/// Gets a unique username for this user: either the new-style name or the name with
/// its discriminator.
pub fn get_unique_username(name: &str, discriminator: Option<u16>) -> (r: String)
    ensures
        r@ == unique_username(name@, discriminator),
{
    match discriminator {
        None => name.to_owned(),
        Some(d) => {
            let mut out = chars_of(name);
            out.push('#');
            let mut digits: Vec<char> = Vec::new();
            push_decimal(&mut digits, d as u128);
            let ghost ds = digits@;
            let mut k: usize = digits.len();
            while k < 4
                invariant
                    digits@ == ds,
                    out@ == name@ + seq!['#'] + Seq::new((k - ds.len()) as nat, |i: int| '0'),
                    ds.len() <= k <= 4 || (k == ds.len() && k >= 4),
                decreases 4 - k,
            {
                out.push('0');
                k = k + 1;
                assert(Seq::new((k - ds.len()) as nat, |i: int| '0') =~= Seq::new(
                    (k - 1 - ds.len()) as nat,
                    |i: int| '0',
                ).push('0'));
            }
            let ghost before = out@;
            push_chars(&mut out, digits.as_slice());
            proof {
                if ds.len() >= 4 {
                    assert(Seq::new((k - ds.len()) as nat, |i: int| '0') =~= Seq::<char>::empty());
                    assert(before + ds =~= name@ + seq!['#'] + ds);
                } else {
                    assert(before + ds =~= name@ + seq!['#'] + pad4(ds));
                }
            }
            string_from_chars(out)
        },
    }
}

/// The link to a message: in its server's channel, or in a direct-message channel.
pub open spec fn message_link(guild_id: Option<u64>, channel_id: u64, message_id: u64) -> Seq<char> {
    "https://discord.com/channels/"@ + match guild_id {
        Some(g) => dec(g as nat),
        None => "@me"@,
    } + seq!['/'] + dec(channel_id as nat) + seq!['/'] + dec(message_id as nat)
}

/// Writes the link to a message.
pub fn write_message_link(f: &mut String, guild_id: Option<u64>, channel_id: u64, message_id: u64)
    ensures
        final(f)@ == old(f)@ + message_link(guild_id, channel_id, message_id),
{
    let mut out: Vec<char> = Vec::new();
    match guild_id {
        Some(g) => push_decimal(&mut out, g as u128),
        None => push_chars(&mut out, &['@', 'm', 'e']),
    }
    proof {
        reveal_strlit("@me");
    }
    push_chars(&mut out, &['/']);
    push_decimal(&mut out, channel_id as u128);
    push_chars(&mut out, &['/']);
    push_decimal(&mut out, message_id as u128);
    f.append("https://discord.com/channels/");
    f.append(string_from_chars(out).as_str());
    proof {
        let tail = match guild_id {
            Some(g) => dec(g as nat),
            None => "@me"@,
        } + seq!['/'] + dec(channel_id as nat) + seq!['/'] + dec(message_id as nat);
        assert(old(f)@ + "https://discord.com/channels/"@ + tail =~= old(f)@ + message_link(
            guild_id,
            channel_id,
            message_id,
        ));
    }
}

/// The index of the first line feed from `i` on (`cs.len()` if there is none).
pub open spec fn line_feed_at(cs: Seq<char>, i: int) -> int
    decreases cs.len() - i,
{
    if i < 0 || i >= cs.len() {
        cs.len() as int
    } else if cs[i] == '\n' {
        i
    } else {
        line_feed_at(cs, i + 1)
    }
}

/// The lines of a text (`str::lines`): split at `\n` or `\r\n`, where a final line
/// ending adds no empty line.
pub open spec fn text_lines(cs: Seq<char>) -> Seq<Seq<char>>
    decreases cs.len(),
{
    if cs.len() == 0 {
        Seq::empty()
    } else {
        let e = line_feed_at(cs, 0);
        proof {
            lemma_line_feed_at(cs, 0);
        }
        if e < cs.len() {
            let line = if e > 0 && cs[e - 1] == '\r' {
                cs.take(e - 1)
            } else {
                cs.take(e)
            };
            seq![line] + text_lines(cs.skip(e + 1))
        } else {
            seq![cs]
        }
    }
}

/// Lines, each quoted: `> ` before it and a line feed after it.
pub open spec fn quoted(lines: Seq<Seq<char>>) -> Seq<char>
    decreases lines.len(),
{
    if lines.len() == 0 {
        Seq::empty()
    } else {
        seq!['>', ' '] + lines[0] + seq!['\n'] + quoted(lines.drop_first())
    }
}

pub proof fn lemma_line_feed_at(cs: Seq<char>, i: int)
    requires
        0 <= i <= cs.len(),
    ensures
        i <= line_feed_at(cs, i) <= cs.len(),
        forall|k: int| i <= k < line_feed_at(cs, i) ==> cs[k] != '\n',
        line_feed_at(cs, i) < cs.len() ==> cs[line_feed_at(cs, i)] == '\n',
    decreases cs.len() - i,
{
    if i < cs.len() && cs[i] != '\n' {
        lemma_line_feed_at(cs, i + 1);
    }
}

proof fn lemma_line_feed_shift(cs: Seq<char>, s: int, i: int)
    requires
        0 <= s <= i <= cs.len(),
    ensures
        line_feed_at(cs.skip(s), i - s) == line_feed_at(cs, i) - s,
    decreases cs.len() - i,
{
    if i < cs.len() && cs[i] != '\n' {
        lemma_line_feed_shift(cs, s, i + 1);
    }
}

proof fn lemma_quoted_push(lines: Seq<Seq<char>>, line: Seq<char>)
    ensures
        quoted(lines.push(line)) == quoted(lines) + seq!['>', ' '] + line + seq!['\n'],
    decreases lines.len(),
{
    let a = seq!['>', ' '];
    let b = seq!['\n'];
    if lines.len() > 0 {
        let rest = lines.drop_first();
        lemma_quoted_push(rest, line);
        assert(lines.push(line).drop_first() =~= rest.push(line));
        assert(lines.push(line)[0] == lines[0]);
        let head = a + lines[0] + b;
        assert(quoted(lines.push(line)) == head + quoted(rest.push(line)));
        assert(quoted(lines) == head + quoted(rest));
        assert(head + (quoted(rest) + a + line + b) =~= (head + quoted(rest)) + a + line + b);
    } else {
        assert(lines.push(line).drop_first() =~= Seq::<Seq<char>>::empty());
        assert(lines.push(line)[0] == line);
        assert(quoted(lines.push(line)) == a + line + b + quoted(Seq::<Seq<char>>::empty()));
        assert(a + line + b + Seq::<char>::empty() =~= Seq::<char>::empty() + a + line + b);
    }
}

/// The lines of the text from `start` on, after the lines before it.
proof fn lemma_text_lines_step(cs: Seq<char>, start: int)
    requires
        0 <= start < cs.len(),
    ensures
        ({
            let e = line_feed_at(cs, start);
            let rest = cs.skip(start);
            &&& e < cs.len() ==> text_lines(rest) == seq![
                if e > start && cs[e - 1] == '\r' {
                    cs.subrange(start, e - 1)
                } else {
                    cs.subrange(start, e)
                },
            ] + text_lines(cs.skip(e + 1))
            &&& e >= cs.len() ==> text_lines(rest) == seq![cs.subrange(start, cs.len() as int)]
        }),
{
    let rest = cs.skip(start);
    lemma_line_feed_shift(cs, start, start);
    lemma_line_feed_at(cs, start);
    let e = line_feed_at(cs, start);
    if e < cs.len() {
        assert(rest.skip(e - start + 1) =~= cs.skip(e + 1));
        if e > start && cs[e - 1] == '\r' {
            assert(rest.take(e - start - 1) =~= cs.subrange(start, e - 1));
        } else {
            assert(rest.take(e - start) =~= cs.subrange(start, e));
        }
    } else {
        assert(rest =~= cs.subrange(start, cs.len() as int));
    }
}

/// Quotes a message's text: each of its lines after `> `, each ending in a line feed.
pub fn quote_lines(content: &str) -> (r: String)
    ensures
        r@ == quoted(text_lines(content@)),
{
    let cs = chars_of(content);
    let ghost all = cs@;
    let mut out: Vec<char> = Vec::new();
    let mut start: usize = 0;
    let ghost mut done: Seq<Seq<char>> = Seq::empty();
    assert(all.skip(0) =~= all);
    assert(done + text_lines(all) =~= text_lines(all));
    while start < cs.len()
        invariant
            cs@ == all,
            0 <= start <= all.len(),
            text_lines(all) == done + text_lines(all.skip(start as int)),
            out@ == quoted(done),
        decreases all.len() - start,
    {
        proof {
            lemma_text_lines_step(all, start as int);
            lemma_line_feed_at(all, start as int);
        }
        let mut e = start;
        while e < cs.len() && cs[e] != '\n'
            invariant
                cs@ == all,
                start <= e <= all.len(),
                line_feed_at(all, start as int) == line_feed_at(all, e as int),
            decreases all.len() - e,
        {
            e = e + 1;
        }
        let line_end = if e < cs.len() && e > start && cs[e - 1] == '\r' {
            e - 1
        } else {
            e
        };
        let ghost before = out@;
        push_chars(&mut out, &['>', ' ']);
        push_chars(&mut out, &cs.as_slice()[start..line_end]);
        push_chars(&mut out, &['\n']);
        let ghost line = all.subrange(start as int, line_end as int);
        proof {
            lemma_quoted_push(done, line);
            assert(out@ =~= before + seq!['>', ' '] + line + seq!['\n']);
            let old_done = done;
            done = done.push(line);
            if e < all.len() {
                assert(text_lines(all) == done + text_lines(all.skip(e + 1)));
            } else {
                assert(all.skip(all.len() as int) =~= Seq::<char>::empty());
                assert(text_lines(all) == done + text_lines(all.skip(all.len() as int)));
            }
        }
        start = if e < cs.len() {
            e + 1
        } else {
            e
        };
    }
    proof {
        assert(all.skip(start as int) =~= Seq::<char>::empty());
        assert(done + Seq::<Seq<char>>::empty() =~= done);
    }
    string_from_chars(out)
}

} // verus!
