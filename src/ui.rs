use vstd::prelude::*;

use crate::text::{decimal, push_decimal};

verus! {

/// The value of a hexadecimal digit.
pub open spec fn hex_value(c: char) -> Option<nat> {
    if '0' <= c && c <= '9' {
        Some((c as nat - '0' as nat) as nat)
    } else if 'a' <= c && c <= 'f' {
        Some((c as nat - 'a' as nat + 10) as nat)
    } else if 'A' <= c && c <= 'F' {
        Some((c as nat - 'A' as nat + 10) as nat)
    } else {
        None
    }
}

/// A colour channel written as two characters: two hexadecimal digits, or a
/// `+` sign and one digit, as base-16 parsing of a byte takes them; 255 for
/// anything else.
pub open spec fn channel(a: char, b: char) -> nat {
    match (hex_value(a), hex_value(b)) {
        (Some(x), Some(y)) => 16 * x + y,
        (None, Some(y)) => if a == '+' {
            y
        } else {
            255
        },
        _ => 255,
    }
}

/// A text without its leading `#` characters.
pub open spec fn strip_hashes(s: Seq<char>) -> Seq<char>
    decreases s.len(),
{
    if s.len() > 0 && s[0] == '#' {
        strip_hashes(s.subrange(1, s.len() as int))
    } else {
        s
    }
}

pub open spec fn all_ascii(s: Seq<char>) -> bool {
    forall|i: int| 0 <= i < s.len() ==> s[i] < '\u{80}'
}

/// `text` in the 24-bit terminal colour `hex` (`#rrggbb`, the `#` optional);
/// a colour that is not six ASCII characters leaves the text as it is.
pub open spec fn hex_escaped(hex: Seq<char>, text: Seq<char>) -> Seq<char> {
    let h = strip_hashes(hex);
    if h.len() != 6 || !all_ascii(h) {
        text
    } else {
        "\x1b[38;2;"@ + decimal(channel(h[0], h[1])) + ";"@ + decimal(channel(h[2], h[3])) + ";"@
            + decimal(channel(h[4], h[5])) + "m"@ + text + "\x1b[0m"@
    }
}

fn hex_digit_value(c: char) -> (r: Option<u8>)
    ensures
        match r {
            Some(v) => hex_value(c) == Some(v as nat),
            None => hex_value(c) is None,
        },
{
    if '0' <= c && c <= '9' {
        Some((c as u32 - '0' as u32) as u8)
    } else if 'a' <= c && c <= 'f' {
        Some((c as u32 - 'a' as u32 + 10) as u8)
    } else if 'A' <= c && c <= 'F' {
        Some((c as u32 - 'A' as u32 + 10) as u8)
    } else {
        None
    }
}

fn channel_value(a: char, b: char) -> (r: u8)
    ensures
        r as nat == channel(a, b),
{
    match (hex_digit_value(a), hex_digit_value(b)) {
        (Some(x), Some(y)) => 16 * x + y,
        (None, Some(y)) => if a == '+' {
            y
        } else {
            255
        },
        _ => 255,
    }
}

/// Colours `text` with the terminal colour `hex`.
pub fn hex_escape(hex: &str, text: &str) -> (r: String)
    ensures
        r@ == hex_escaped(hex@, text@),
{
    let n = hex.unicode_len();
    let mut start: usize = 0;
    assert(hex@.subrange(0, n as int) =~= hex@);
    while start < n && hex.get_char(start) == '#'
        invariant
            n == hex@.len(),
            start <= n,
            strip_hashes(hex@) == strip_hashes(hex@.subrange(start as int, n as int)),
        decreases n - start,
    {
        assert(hex@.subrange(start as int, n as int).subrange(1, (n - start) as int) =~= hex@.subrange(
            start + 1,
            n as int,
        ));
        start = start + 1;
    }
    let h = hex.substring_char(start, n);
    assert(h@ == hex@.subrange(start as int, n as int));
    assert(strip_hashes(hex@) == h@) by {
        if start < n {
            assert(h@[0] != '#');
        }
    }
    if n - start != 6 {
        return String::from_str(text);
    }
    let mut i: usize = 0;
    while i < 6
        invariant
            i <= 6,
            h@.len() == 6,
            strip_hashes(hex@) == h@,
            forall|j: int| 0 <= j < i ==> h@[j] < '\u{80}',
        decreases 6 - i,
    {
        let c = h.get_char(i);
        if c >= '\u{80}' {
            assert(!all_ascii(h@)) by {
                assert(!(h@[i as int] < '\u{80}'));
            }
            return String::from_str(text);
        }
        i = i + 1;
    }
    let r_val = channel_value(h.get_char(0), h.get_char(1));
    let g_val = channel_value(h.get_char(2), h.get_char(3));
    let b_val = channel_value(h.get_char(4), h.get_char(5));
    let mut out = String::from_str("\x1b[38;2;");
    push_decimal(&mut out, r_val as u64);
    out.append(";");
    push_decimal(&mut out, g_val as u64);
    out.append(";");
    push_decimal(&mut out, b_val as u64);
    out.append("m");
    out.append(text);
    out.append("\x1b[0m");
    out
}

/// Colours `text` dark cyan.
pub fn dark_cyan(text: &str) -> (r: String)
    ensures
        r@ == hex_escaped("#007392"@, text@),
{
    hex_escape("#007392", text)
}

/// `text` after `amount` spaces.
pub fn indent_spaces(text: &str, amount: usize) -> (r: String)
    ensures
        r@ == Seq::new(amount as nat, |i: int| ' ') + text@,
{
    let mut r = String::new();
    let mut i: usize = 0;
    while i < amount
        invariant
            i <= amount,
            r@ == Seq::new(i as nat, |j: int| ' '),
        decreases amount - i,
    {
        r.append(" ");
        proof {
            reveal_strlit(" ");
        }
        assert(r@ =~= Seq::new((i + 1) as nat, |j: int| ' '));
        i = i + 1;
    }
    r.append(text);
    r
}

} // verus!
