//! The "#RRGGBB" text form of colours in the Aura page.

use vstd::prelude::*;
use vstd::string::{StrSliceExecFns, StringExecFns, StringSliceAdditionalSpecFns};

use crate::device::{ascii_lower, lower_bytes};
use crate::lighting::Colour;

verus! {

/// A colour with an alpha channel, as the colour pickers hold it.
#[derive(Clone, Copy, Debug, PartialEq, Eq, Hash, Structural)]
pub struct Rgba {
    pub alpha: u8,
    pub red: u8,
    pub green: u8,
    pub blue: u8,
}

/// The value of an ASCII hexadecimal digit, of either case.
pub open spec fn hex_digit_value(b: u8) -> Option<u8> {
    if 0x30 <= b <= 0x39 {
        Some((b - 0x30) as u8)
    } else if 0x61 <= b <= 0x66 {
        Some((b - 0x61 + 10) as u8)
    } else if 0x41 <= b <= 0x46 {
        Some((b - 0x41 + 10) as u8)
    } else {
        None
    }
}

/// A two-byte field read as an unsigned hexadecimal number: two digits, or
/// a '+' sign and one digit.
pub open spec fn hex_pair_value(a: u8, b: u8) -> Option<u8> {
    if a == 0x2b {
        hex_digit_value(b)
    } else {
        match (hex_digit_value(a), hex_digit_value(b)) {
            (Some(x), Some(y)) => Some((16 * x + y) as u8),
            _ => None,
        }
    }
}

/// `s` with every leading '#' removed.
pub open spec fn trim_hashes(s: Seq<u8>) -> Seq<u8>
    decreases s.len(),
{
    if s.len() > 0 && s[0] == 0x23 {
        trim_hashes(s.drop_first())
    } else {
        s
    }
}

/// Channel `k` of a colour text without its '#': a field that is no
/// hexadecimal number reads as 164.
pub open spec fn hex_channel(t: Seq<u8>, k: int) -> u8 {
    match hex_pair_value(t[2 * k], t[2 * k + 1]) {
        Some(v) => v,
        None => 164,
    }
}

/// The opaque colour that the UTF-8 text `s` stands for: opaque black when
/// fewer than six bytes follow the leading '#'s, else the first three
/// two-byte fields as red, green and blue.
pub open spec fn decoded_colour(s: Seq<u8>) -> Rgba {
    let t = trim_hashes(s);
    if t.len() < 6 {
        Rgba { alpha: 255, red: 0, green: 0, blue: 0 }
    } else {
        Rgba { alpha: 255, red: hex_channel(t, 0), green: hex_channel(t, 1), blue: hex_channel(t, 2) }
    }
}

/// Whether the text after the leading '#'s cuts into two-byte fields at
/// character boundaries, as reading it field by field needs whenever it is
/// at least six bytes long.
pub open spec fn splits_into_fields(s: Seq<u8>) -> bool {
    let t = trim_hashes(s);
    t.len() < 6 || (t.len() % 2 == 0 && forall|i: int|
        0 <= i < t.len() && i % 2 == 0 ==> !vstd::utf8::is_continuation_byte(#[trigger] t[i]))
}

fn hex_digit(b: u8) -> (r: Option<u8>)
    ensures
        r == hex_digit_value(b),
{
    if 0x30 <= b && b <= 0x39 {
        Some(b - 0x30)
    } else if 0x61 <= b && b <= 0x66 {
        Some(b - 0x61 + 10)
    } else if 0x41 <= b && b <= 0x46 {
        Some(b - 0x41 + 10)
    } else {
        None
    }
}

fn hex_pair(a: u8, b: u8) -> (r: Option<u8>)
    ensures
        r == hex_pair_value(a, b),
{
    if a == 0x2b {
        hex_digit(b)
    } else {
        match (hex_digit(a), hex_digit(b)) {
            (Some(x), Some(y)) => Some(16 * x + y),
            _ => None,
        }
    }
}

/// The index in `s` after every leading '#'.
fn skip_hashes(s: &[u8]) -> (start: usize)
    ensures
        start <= s@.len(),
        s@.subrange(start as int, s@.len() as int) == trim_hashes(s@),
{
    let mut i: usize = 0;
    assert(s@.subrange(0, s@.len() as int) =~= s@);
    while i < s.len() && s[i] == 0x23
        invariant
            i <= s@.len(),
            trim_hashes(s@.subrange(i as int, s@.len() as int)) == trim_hashes(s@),
        decreases s@.len() - i,
    {
        let ghost rest = s@.subrange(i as int, s@.len() as int);
        assert(rest.drop_first() =~= s@.subrange(i + 1, s@.len() as int));
        i += 1;
    }
    let ghost rest = s@.subrange(i as int, s@.len() as int);
    assert(trim_hashes(rest) == rest);
    i
}

/// Whether `decode_hex` can read `s`: see `splits_into_fields`.
pub fn hex_text_splits(s: &str) -> (r: bool)
    ensures
        r == splits_into_fields(s.spec_bytes()),
{
    let bytes = s.as_bytes();
    let start = skip_hashes(bytes);
    let ghost t = bytes@.subrange(start as int, bytes@.len() as int);
    let n = bytes.len() - start;
    if n < 6 {
        return true;
    }
    if n % 2 != 0 {
        return false;
    }
    let mut i: usize = 0;
    while i < n
        invariant
            n == t.len(),
            start + n == bytes@.len(),
            t == bytes@.subrange(start as int, bytes@.len() as int),
            t == trim_hashes(s.spec_bytes()),
            bytes@ == s.spec_bytes(),
            bytes@.len() == bytes.len(),
            i <= n,
            i % 2 == 0,
            n % 2 == 0,
            n >= 6,
            forall|j: int|
                0 <= j < i && j % 2 == 0 ==> !vstd::utf8::is_continuation_byte(#[trigger] t[j]),
        decreases n - i,
    {
        let b = bytes[start + i];
        if 0x80 <= b && b <= 0xbf {
            assert(t[i as int] == b);
            assert(!splits_into_fields(s.spec_bytes())) by {
                assert(t.len() >= 6);
                assert(0 <= i < t.len() && (i as int) % 2 == 0);
                assert(vstd::utf8::is_continuation_byte(t[i as int]));
            }
            return false;
        }
        i += 2;
    }
    true
}

/// Reads a "#RRGGBB" colour text into an opaque colour; see `decoded_colour`.
pub fn decode_hex(s: &str) -> (c: Rgba)
    requires
        splits_into_fields(s.spec_bytes()),
    ensures
        c == decoded_colour(s.spec_bytes()),
{
    let bytes = s.as_bytes();
    let start = skip_hashes(bytes);
    let ghost t = bytes@.subrange(start as int, bytes@.len() as int);
    if bytes.len() - start < 6 {
        return Rgba { alpha: 255, red: 0, green: 0, blue: 0 };
    }
    let red = match hex_pair(bytes[start], bytes[start + 1]) {
        Some(v) => v,
        None => 164,
    };
    let green = match hex_pair(bytes[start + 2], bytes[start + 3]) {
        Some(v) => v,
        None => 164,
    };
    let blue = match hex_pair(bytes[start + 4], bytes[start + 5]) {
        Some(v) => v,
        None => 164,
    };
    assert(t[0] == bytes@[start as int] && t[1] == bytes@[start + 1]);
    assert(t[2] == bytes@[start + 2] && t[3] == bytes@[start + 3]);
    assert(t[4] == bytes@[start + 4] && t[5] == bytes@[start + 5]);
    Rgba { alpha: 255, red, green, blue }
}

/// The upper-case hexadecimal digit for `n` (below 16).
pub open spec fn hex_digit_char(n: int) -> char {
    if n < 10 {
        (0x30 + n) as char
    } else {
        (0x41 + n - 10) as char
    }
}

/// The text "#RRGGBB" for a colour, in upper-case hexadecimal.
pub open spec fn hex_text(c: Colour) -> Seq<char> {
    seq![
        '#',
        hex_digit_char((c.r / 16) as int),
        hex_digit_char((c.r % 16) as int),
        hex_digit_char((c.g / 16) as int),
        hex_digit_char((c.g % 16) as int),
        hex_digit_char((c.b / 16) as int),
        hex_digit_char((c.b % 16) as int),
    ]
}

fn hex_digit_text(n: u8) -> (t: &'static str)
    requires
        n < 16,
    ensures
        t@ == seq![hex_digit_char(n as int)],
{
    let digits = "0123456789ABCDEF";
    proof {
        reveal_strlit("0123456789ABCDEF");
        assert(vstd::string::is_ascii(digits));
    }
    let t = digits.substring_ascii(n as usize, n as usize + 1);
    assert(t@ =~= seq![hex_digit_char(n as int)]);
    t
}

/// Writes a colour as "#RRGGBB" in upper-case hexadecimal.
pub fn hex_from_colour(c: Colour) -> (text: String)
    ensures
        text@ == hex_text(c),
{
    let mut text = String::from_str("#");
    proof {
        reveal_strlit("#");
    }
    text.append(hex_digit_text(c.r / 16));
    text.append(hex_digit_text(c.r % 16));
    text.append(hex_digit_text(c.g / 16));
    text.append(hex_digit_text(c.g % 16));
    text.append(hex_digit_text(c.b / 16));
    text.append(hex_digit_text(c.b % 16));
    assert(text@ =~= hex_text(c));
    text
}

proof fn lemma_hex_digit_read_back(n: int)
    requires
        0 <= n < 16,
    ensures
        hex_digit_char(n) as u8 != 0x2b,
        hex_digit_char(n) as u8 != 0x23,
        '\0' <= hex_digit_char(n) <= '\u{7f}',
        hex_digit_value(hex_digit_char(n) as u8) == Some(n as u8),
{
}

/// Reading back the text written for a colour gives that colour, opaque.
pub proof fn lemma_hex_round_trip(c: Colour, s: &str)
    requires
        s@ == hex_text(c),
    ensures
        splits_into_fields(s.spec_bytes()),
        decoded_colour(s.spec_bytes()) == (Rgba { alpha: 255, red: c.r, green: c.g, blue: c.b }),
{
    lemma_hex_digit_read_back((c.r / 16) as int);
    lemma_hex_digit_read_back((c.r % 16) as int);
    lemma_hex_digit_read_back((c.g / 16) as int);
    lemma_hex_digit_read_back((c.g % 16) as int);
    lemma_hex_digit_read_back((c.b / 16) as int);
    lemma_hex_digit_read_back((c.b % 16) as int);
    assert(vstd::string::is_ascii(s));
    vstd::string::is_ascii_spec_bytes(s);
    let b = s.spec_bytes();
    assert(b.len() == 7);
    assert(b[0] == 0x23);
    assert(b.drop_first()[0] != 0x23);
    assert(trim_hashes(b.drop_first()) == b.drop_first());
    let t = trim_hashes(b);
    assert(t == b.drop_first());
    assert(t.len() == 6);
}

/// Every hexadecimal digit reads as its value, written in either case:
/// '0'-'9' as 0-9, and both 'a'-'f' and 'A'-'F' as 10-15.
pub proof fn lemma_hex_digit_values(n: u8)
    requires
        n < 16,
    ensures
        n < 10 ==> hex_digit_value((0x30 + n) as u8) == Some(n),
        n >= 10 ==> hex_digit_value((0x41 + n - 10) as u8) == Some(n),
        n >= 10 ==> hex_digit_value((0x61 + n - 10) as u8) == Some(n),
{
}

/// Lowering an ASCII letter never changes whether or how a byte reads as a
/// hexadecimal digit.
pub proof fn lemma_hex_digit_ignores_case(b: u8)
    ensures
        hex_digit_value(ascii_lower(b)) == hex_digit_value(b),
        (ascii_lower(b) == 0x2b) == (b == 0x2b),
        (ascii_lower(b) == 0x23) == (b == 0x23),
{
}

proof fn lemma_trim_hashes_lower(s: Seq<u8>)
    ensures
        trim_hashes(lower_bytes(s)) == lower_bytes(trim_hashes(s)),
    decreases s.len(),
{
    if s.len() > 0 {
        lemma_hex_digit_ignores_case(s[0]);
        assert(lower_bytes(s).drop_first() =~= lower_bytes(s.drop_first()));
        lemma_trim_hashes_lower(s.drop_first());
    }
}

/// A colour text reads the same in any ASCII case: "#ff8000" and "#FF8000"
/// give the same colour.
pub proof fn lemma_decode_ignores_case(s: Seq<u8>)
    ensures
        decoded_colour(lower_bytes(s)) == decoded_colour(s),
{
    lemma_trim_hashes_lower(s);
    let t = trim_hashes(s);
    let lt = trim_hashes(lower_bytes(s));
    assert(lt.len() == t.len());
    if t.len() >= 6 {
        assert forall|k: int| 0 <= k < 6 implies lt[k] == ascii_lower(#[trigger] t[k]) by {}
        lemma_hex_digit_ignores_case(t[0]);
        lemma_hex_digit_ignores_case(t[1]);
        lemma_hex_digit_ignores_case(t[2]);
        lemma_hex_digit_ignores_case(t[3]);
        lemma_hex_digit_ignores_case(t[4]);
        lemma_hex_digit_ignores_case(t[5]);
        assert(hex_channel(lt, 0) == hex_channel(t, 0));
        assert(hex_channel(lt, 1) == hex_channel(t, 1));
        assert(hex_channel(lt, 2) == hex_channel(t, 2));
    }
}

/// The lower-case hexadecimal digit for `n` (below 16).
pub open spec fn lower_hex_digit_char(n: int) -> char {
    if n < 10 {
        (0x30 + n) as char
    } else {
        (0x61 + n - 10) as char
    }
}

/// The text "#rrggbb" for a colour, in lower-case hexadecimal.
pub open spec fn lower_hex_text(c: Colour) -> Seq<char> {
    seq![
        '#',
        lower_hex_digit_char((c.r / 16) as int),
        lower_hex_digit_char((c.r % 16) as int),
        lower_hex_digit_char((c.g / 16) as int),
        lower_hex_digit_char((c.g % 16) as int),
        lower_hex_digit_char((c.b / 16) as int),
        lower_hex_digit_char((c.b % 16) as int),
    ]
}

proof fn lemma_lower_hex_digit_read_back(n: int)
    requires
        0 <= n < 16,
    ensures
        lower_hex_digit_char(n) as u8 != 0x2b,
        lower_hex_digit_char(n) as u8 != 0x23,
        '\0' <= lower_hex_digit_char(n) <= '\u{7f}',
        hex_digit_value(lower_hex_digit_char(n) as u8) == Some(n as u8),
{
}

/// A colour written in lower-case hexadecimal reads back as that colour,
/// opaque.
pub proof fn lemma_lower_hex_round_trip(c: Colour, s: &str)
    requires
        s@ == lower_hex_text(c),
    ensures
        splits_into_fields(s.spec_bytes()),
        decoded_colour(s.spec_bytes()) == (Rgba { alpha: 255, red: c.r, green: c.g, blue: c.b }),
{
    lemma_lower_hex_digit_read_back((c.r / 16) as int);
    lemma_lower_hex_digit_read_back((c.r % 16) as int);
    lemma_lower_hex_digit_read_back((c.g / 16) as int);
    lemma_lower_hex_digit_read_back((c.g % 16) as int);
    lemma_lower_hex_digit_read_back((c.b / 16) as int);
    lemma_lower_hex_digit_read_back((c.b % 16) as int);
    assert(vstd::string::is_ascii(s));
    vstd::string::is_ascii_spec_bytes(s);
    let b = s.spec_bytes();
    assert(b.len() == 7);
    assert(b[0] == 0x23);
    assert(b.drop_first()[0] != 0x23);
    assert(trim_hashes(b.drop_first()) == b.drop_first());
    assert(trim_hashes(b) == b.drop_first());
}

} // verus!
