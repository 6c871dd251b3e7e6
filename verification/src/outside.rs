//! The calls into the `urlencoding` and `bytesize` crates, with what they are trusted to do.
use vstd::prelude::*;
use crate::text::{all_digits, decimal_text, digit_char, digits_value};

verus! {

/// The characters that percent-encoding leaves as they are: ASCII letters and digits,
/// `-`, `.`, `_` and `~`.
pub open spec fn is_unreserved(c: char) -> bool {
    ||| ('0' <= c <= '9')
    ||| ('A' <= c <= 'Z')
    ||| ('a' <= c <= 'z')
    ||| c == '-'
    ||| c == '.'
    ||| c == '_'
    ||| c == '~'
}

/// An upper-case hexadecimal digit of a number below sixteen.
pub open spec fn hex_digit_char(d: nat) -> char {
    if d < 10 {
        digit_char(d)
    } else {
        (((d - 10) + ('A' as nat)) as u32) as char
    }
}

/// Percent-encoding of bytes: a byte that is an ASCII letter, digit, `-`, `.`, `_` or `~`
/// stands for itself; any other becomes `%` and its two upper-case hexadecimal digits.
pub open spec fn percent_encoded(bytes: Seq<u8>) -> Seq<char>
    decreases bytes.len(),
{
    if bytes.len() == 0 {
        Seq::empty()
    } else {
        let b = bytes[0];
        let c = (b as u32) as char;
        let head = if is_unreserved(c) {
            seq![c]
        } else {
            seq!['%', hex_digit_char((b as nat) / 16), hex_digit_char((b as nat) % 16)]
        };
        head + percent_encoded(bytes.drop_first())
    }
}

/// The percent-encoding of the UTF-8 bytes of a string.
pub open spec fn url_encoded(s: Seq<char>) -> Seq<char> {
    percent_encoded(vstd::utf8::encode_utf8(s))
}

/// Calls `urlencoding::encode`. Trusted: the result is the percent-encoding of the
/// argument's UTF-8 bytes, byte by byte, as the crate's `encode_into` writes it (a safe
/// byte as itself, any other as `%` and two upper-case hexadecimal digits).
#[verifier::external_body]
pub(crate) fn url_encode(s: &str) -> (r: String)
    ensures
        r@ == url_encoded(s@),
{
    urlencoding::encode(s).into_owned()
}

/// The power of a thousand that a unit letter stands for: `K` one, up to `E` six.
pub open spec fn unit_exponent(c: char) -> nat {
    if c == 'K' {
        1
    } else if c == 'M' {
        2
    } else if c == 'G' {
        3
    } else if c == 'T' {
        4
    } else if c == 'P' {
        5
    } else {
        6
    }
}

/// A thousand to the power `e`.
pub open spec fn thousand_pow(e: nat) -> nat
    decreases e,
{
    if e == 0 {
        1
    } else {
        1000 * thousand_pow((e - 1) as nat)
    }
}

/// The number that a scaled size text shows, counted in tenths of its unit: the digits
/// before the point, then the one after it.
pub open spec fn shown_tenths(t: Seq<char>) -> int {
    digits_value(t.take(t.len() - 5)) * 10 + ((t[t.len() - 4] as int) - ('0' as int))
}

/// The power of a thousand that the unit letter of a scaled size text stands for.
pub open spec fn shown_unit(t: Seq<char>) -> nat {
    thousand_pow(unit_exponent(t[t.len() - 2]))
}

/// A number of bytes shown scaled: decimal digits, `.`, one decimal digit, a space, one
/// of `K`, `M`, `G`, `T`, `P`, `E`, and `B`. The unit is a power of a thousand no
/// larger than `bytes`, and `bytes` is below 1.2 of the next power (the scale is that of
/// powers of 1024: one million bytes show as `1000.0 KB`). Read in tenths of its unit,
/// the number is within 0.06 of a unit of `bytes`, which it rounds to a tenth.
pub open spec fn scaled_size_text(bytes: u64, t: Seq<char>) -> bool {
    let n = t.len();
    let e = unit_exponent(t[n - 2]);
    let unit = thousand_pow(e);
    &&& n >= 6
    &&& all_digits(t.take(n - 5))
    &&& t[n - 5] == '.'
    &&& '0' <= t[n - 4] <= '9'
    &&& t[n - 3] == ' '
    &&& (t[n - 2] == 'K' || t[n - 2] == 'M' || t[n - 2] == 'G' || t[n - 2] == 'T'
        || t[n - 2] == 'P' || t[n - 2] == 'E')
    &&& t[n - 1] == 'B'
    &&& unit <= bytes
    &&& 10 * bytes < 12 * thousand_pow(e + 1)
    &&& -6 * unit <= 10 * (shown_tenths(t) * unit - 10 * bytes) <= 6 * unit
}

/// What `bytesize` shows for a number of bytes: below one thousand the number and ` B`;
/// from one thousand on a scaled text, its unit the power of a thousand picked on the
/// scale of powers of 1024, its number the size in that unit rounded to a tenth.
pub open spec fn byte_size_shape(bytes: u64, t: Seq<char>) -> bool {
    if bytes < 1000 {
        t == decimal_text(bytes as nat) + " B"@
    } else {
        scaled_size_text(bytes, t)
    }
}

/// Calls `ByteSize::b(bytes).to_string()`. Trusted: below one thousand bytes the result
/// is the number in decimal followed by ` B`, as the crate's `to_string` writes it; from
/// one thousand on it is `{:.1} {unit}B` of `bytes` divided in floating point by
/// `1000^e`, where `e` (one to six, `KMGTPE`) is `ln(bytes) / ln(1024)` truncated, at
/// least one. So `1000^e <= bytes < 1.2 * 1000^(e + 1)` and the number is the quotient
/// rounded to a tenth, within 0.06 of a unit with the float error. The exact unit at
/// the edges of the 1024 scale and the exact last digit are not stated: `f64::ln` has a
/// precision that std leaves to the platform.
#[verifier::external_body]
pub(crate) fn byte_size_label(bytes: u64) -> (r: String)
    ensures
        byte_size_shape(bytes, r@),
{
    bytesize::ByteSize::b(bytes).to_string()
}

} // verus!
