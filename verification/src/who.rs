use vstd::prelude::*;
use crate::text::join::joined;

verus! {

/// The lowercase hexadecimal digits.
pub open spec fn hex_digits() -> Seq<char> {
    seq!['0', '1', '2', '3', '4', '5', '6', '7', '8', '9', 'a', 'b', 'c', 'd', 'e', 'f']
}

/// The lowercase hexadecimal representation of `n`, without leading zeros.
pub open spec fn hex(n: nat) -> Seq<char>
    decreases n,
{
    if n < 16 {
        seq![hex_digits()[n as int]]
    } else {
        hex(n / 16).push(hex_digits()[(n % 16) as int])
    }
}

/// Appends the lowercase hexadecimal representation of `n` to `out`.
fn push_hex(out: &mut String, n: u64)
    ensures
        final(out)@ == old(out)@ + hex(n as nat),
    decreases n,
{
    if n >= 16 {
        push_hex(out, n / 16);
    }
    let digits: [char; 16] = ['0', '1', '2', '3', '4', '5', '6', '7', '8', '9', 'a', 'b', 'c', 'd', 'e', 'f'];
    assert(digits@ == hex_digits());
    let d = digits[(n % 16) as usize];
    let mut one: Vec<char> = Vec::new();
    one.push(d);
    out.append(crate::text::chars::string_from_chars(one).as_str());
    proof {
        if n < 16 {
            assert(old(out)@ + seq![d] =~= old(out)@ + hex(n as nat));
        } else {
            assert((old(out)@ + hex((n / 16) as nat)) + seq![d] =~= old(out)@ + hex(n as nat));
        }
    }
}

/// The labels of the first `n` flags whose bits are all set in `bits`.
pub open spec fn set_labels(bits: u64, names: Seq<(u64, &str)>, n: int) -> Seq<Seq<char>>
    decreases n,
{
    if n <= 0 {
        Seq::empty()
    } else {
        let rest = set_labels(bits, names, n - 1);
        if bits & names[n - 1].0 == names[n - 1].0 {
            rest.push(names[n - 1].1@)
        } else {
            rest
        }
    }
}

/// The text naming the flags set in `bits`: the labels of the flags whose bits are all
/// set, joined with `", "`, or `<None?>` where there is none.
pub open spec fn flags_text(bits: u64, names: Seq<(u64, &str)>) -> Seq<char> {
    let labels = set_labels(bits, names, names.len() as int);
    if labels.len() == 0 {
        seq!['<', 'N', 'o', 'n', 'e', '?', '>']
    } else {
        joined(labels, seq![',', ' '])
    }
}

/// Appends the labels of the flags that `flags` contains.
pub fn write_flags(f: &mut String, flags: u64, names: &[(u64, &str)])
    ensures
        final(f)@ == old(f)@ + flags_text(flags, names@),
{
    let mut first = true;
    let mut i: usize = 0;
    while i < names.len()
        invariant
            0 <= i <= names@.len(),
            first == (set_labels(flags, names@, i as int).len() == 0),
            f@ == old(f)@ + joined(set_labels(flags, names@, i as int), seq![',', ' ']),
        decreases names.len() - i,
    {
        let (flag, label) = names[i];
        if flags & flag == flag {
            if !first {
                f.append(", ");
            }
            f.append(label);
            first = false;
            proof {
                reveal_strlit(", ");
                let prev = set_labels(flags, names@, i as int);
                let next = set_labels(flags, names@, i + 1);
                assert(next.drop_last() =~= prev);
                if prev.len() == 0 {
                    assert(joined(prev, seq![',', ' ']) =~= Seq::<char>::empty());
                }
            }
        }
        i = i + 1;
    }
    if first {
        f.append("<None?>");
        proof {
            reveal_strlit("<None?>");
            assert(joined(set_labels(flags, names@, names@.len() as int), seq![',', ' ']) =~= Seq::<char>::empty());
        }
    }
}

/// The permission flags with their labels.
pub open spec fn permission_flags() -> Seq<(u64, &'static str)> {
    seq![
        (0x1u64, "Create Instant Invite"),
        (0x2u64, "Kick Members"),
        (0x4u64, "Ban Members"),
        (0x8u64, "Administrator"),
        (0x10u64, "Manage Channels"),
        (0x20u64, "Manage Guild"),
        (0x40u64, "Add Reactions"),
        (0x80u64, "View Audit Log"),
        (0x100u64, "Priority Speaker"),
        (0x200u64, "Stream"),
        (0x400u64, "View Channel"),
        (0x800u64, "Send Messages"),
        (0x1000u64, "Send Tts Messages"),
        (0x2000u64, "Manage Messages"),
        (0x4000u64, "Embed Links"),
        (0x8000u64, "Attach Files"),
        (0x10000u64, "Read Message History"),
        (0x20000u64, "Mention Everyone"),
        (0x40000u64, "Use External Emojis"),
        (0x80000u64, "View Guild Insights"),
        (0x100000u64, "Connect"),
        (0x200000u64, "Speak"),
        (0x400000u64, "Mute Members"),
        (0x800000u64, "Deafen Members"),
        (0x1000000u64, "Move Members"),
        (0x2000000u64, "Use Vad"),
        (0x4000000u64, "Change Nickname"),
        (0x8000000u64, "Manage Nicknames"),
        (0x10000000u64, "Manage Roles"),
        (0x20000000u64, "Manage Webhooks"),
        (0x40000000u64, "Manage Guild Expressions"),
        (0x80000000u64, "Use Application Commands"),
        (0x100000000u64, "Request To Speak"),
        (0x200000000u64, "Manage Events"),
        (0x400000000u64, "Manage Threads"),
        (0x800000000u64, "Create Public Threads"),
        (0x1000000000u64, "Create Private Threads"),
        (0x2000000000u64, "Use External Stickers"),
        (0x4000000000u64, "Send Messages In Threads"),
        (0x8000000000u64, "Use Embedded Activities"),
        (0x10000000000u64, "Moderate Members"),
        (0x20000000000u64, "View Creator Monetization Analytics"),
        (0x40000000000u64, "Use Soundboard"),
        (0x80000000000u64, "Create Guild Expressions"),
        (0x100000000000u64, "Create Events"),
        (0x200000000000u64, "Use External Sounds"),
        (0x400000000000u64, "Send Voice Messages"),
        (0x1000000000000u64, "Set Voice Channel Status"),
        (0x2000000000000u64, "Send Polls"),
        (0x4000000000000u64, "Use External Apps"),
    ]
}

/// The permission flags with their labels.
pub fn permission_flag_names() -> (r: Vec<(u64, &'static str)>)
    ensures
        r@ == permission_flags(),
{
    vec![
        (0x1u64, "Create Instant Invite"),
        (0x2u64, "Kick Members"),
        (0x4u64, "Ban Members"),
        (0x8u64, "Administrator"),
        (0x10u64, "Manage Channels"),
        (0x20u64, "Manage Guild"),
        (0x40u64, "Add Reactions"),
        (0x80u64, "View Audit Log"),
        (0x100u64, "Priority Speaker"),
        (0x200u64, "Stream"),
        (0x400u64, "View Channel"),
        (0x800u64, "Send Messages"),
        (0x1000u64, "Send Tts Messages"),
        (0x2000u64, "Manage Messages"),
        (0x4000u64, "Embed Links"),
        (0x8000u64, "Attach Files"),
        (0x10000u64, "Read Message History"),
        (0x20000u64, "Mention Everyone"),
        (0x40000u64, "Use External Emojis"),
        (0x80000u64, "View Guild Insights"),
        (0x100000u64, "Connect"),
        (0x200000u64, "Speak"),
        (0x400000u64, "Mute Members"),
        (0x800000u64, "Deafen Members"),
        (0x1000000u64, "Move Members"),
        (0x2000000u64, "Use Vad"),
        (0x4000000u64, "Change Nickname"),
        (0x8000000u64, "Manage Nicknames"),
        (0x10000000u64, "Manage Roles"),
        (0x20000000u64, "Manage Webhooks"),
        (0x40000000u64, "Manage Guild Expressions"),
        (0x80000000u64, "Use Application Commands"),
        (0x100000000u64, "Request To Speak"),
        (0x200000000u64, "Manage Events"),
        (0x400000000u64, "Manage Threads"),
        (0x800000000u64, "Create Public Threads"),
        (0x1000000000u64, "Create Private Threads"),
        (0x2000000000u64, "Use External Stickers"),
        (0x4000000000u64, "Send Messages In Threads"),
        (0x8000000000u64, "Use Embedded Activities"),
        (0x10000000000u64, "Moderate Members"),
        (0x20000000000u64, "View Creator Monetization Analytics"),
        (0x40000000000u64, "Use Soundboard"),
        (0x80000000000u64, "Create Guild Expressions"),
        (0x100000000000u64, "Create Events"),
        (0x200000000000u64, "Use External Sounds"),
        (0x400000000000u64, "Send Voice Messages"),
        (0x1000000000000u64, "Set Voice Channel Status"),
        (0x2000000000000u64, "Send Polls"),
        (0x4000000000000u64, "Use External Apps"),
    ]
}

/// The public user flags with their labels.
pub open spec fn public_flags() -> Seq<(u64, &'static str)> {
    seq![
        (0x1u64, "Discord Employee"),
        (0x2u64, "Partnered Server Owner"),
        (0x4u64, "Hypesquad Events"),
        (0x8u64, "Bug Hunter Level 1"),
        (0x40u64, "House Bravery"),
        (0x80u64, "House Brilliance"),
        (0x100u64, "House Balance"),
        (0x200u64, "Early Supporter"),
        (0x400u64, "Team User"),
        (0x1000u64, "System"),
        (0x4000u64, "Bug Hunter Level 2"),
        (0x10000u64, "Verified Bot"),
        (0x20000u64, "Early Verified Bot Developer"),
        (0x40000u64, "Discord Certified Moderator"),
        (0x80000u64, "Bot Http Interactions"),
        (0x400000u64, "Active Developer"),
    ]
}

/// The public user flags with their labels.
pub fn public_flag_names() -> (r: Vec<(u64, &'static str)>)
    ensures
        r@ == public_flags(),
{
    vec![
        (0x1u64, "Discord Employee"),
        (0x2u64, "Partnered Server Owner"),
        (0x4u64, "Hypesquad Events"),
        (0x8u64, "Bug Hunter Level 1"),
        (0x40u64, "House Bravery"),
        (0x80u64, "House Brilliance"),
        (0x100u64, "House Balance"),
        (0x200u64, "Early Supporter"),
        (0x400u64, "Team User"),
        (0x1000u64, "System"),
        (0x4000u64, "Bug Hunter Level 2"),
        (0x10000u64, "Verified Bot"),
        (0x20000u64, "Early Verified Bot Developer"),
        (0x40000u64, "Discord Certified Moderator"),
        (0x80000u64, "Bot Http Interactions"),
        (0x400000u64, "Active Developer"),
    ]
}

/// The permission bit that grants everything.
pub open spec fn administrator_bit() -> u64 {
    0x8
}

/// The text describing a set of public user flags.
pub open spec fn public_flags_text(bits: u32) -> Seq<char> {
    "**Public Flags:** `0x"@ + hex(bits as nat) + "`\n> -# "@ + flags_text(bits as u64, public_flags()) + "\n"@
}

/// The text describing a set of permissions: every permission for an administrator,
/// else the permissions named.
pub open spec fn permissions_text(bits: u64) -> Seq<char> {
    "**Permissions:** `0x"@ + hex(bits as nat) + "`\n> -# "@ + (if bits & administrator_bit() != 0 {
        "Administrator, *"@
    } else if bits != 0 {
        flags_text(bits, permission_flags())
    } else {
        Seq::<char>::empty()
    }) + "\n"@
}

/// Appends the description of a user's public flags.
pub fn write_public_flags(f: &mut String, public_flags: u32)
    ensures
        final(f)@ == old(f)@ + public_flags_text(public_flags),
{
    f.append("**Public Flags:** `0x");
    push_hex(f, public_flags as u64);
    f.append("`\n> -# ");
    let names = public_flag_names();
    write_flags(f, public_flags as u64, names.as_slice());
    f.append("\n");
}

/// Appends the description of a member's permissions.
pub fn write_permissions(f: &mut String, permissions: u64)
    ensures
        final(f)@ == old(f)@ + permissions_text(permissions),
{
    f.append("**Permissions:** `0x");
    push_hex(f, permissions);
    f.append("`\n> -# ");
    let ghost mid = f@;
    if permissions & 0x8 != 0 {
        f.append("Administrator, *");
    } else if permissions != 0 {
        let names = permission_flag_names();
        write_flags(f, permissions, names.as_slice());
    } else {
        assert(f@ =~= mid + Seq::<char>::empty());
    }
    f.append("\n");
}

} // verus!
