//! Hexadecimal text, as the frames are written and read by people.
use vstd::prelude::*;

verus! {

/// `c` is one of `0-9`, `a-f` or `A-F`.
pub open spec fn is_hex_digit(c: char) -> bool {
    ||| (48 <= c as int && c as int <= 57)
    ||| (97 <= c as int && c as int <= 102)
    ||| (65 <= c as int && c as int <= 70)
}

/// The value of the hexadecimal digit `c`.
pub open spec fn hex_value(c: char) -> int {
    if c as int <= 57 {
        c as int - 48
    } else if c as int >= 97 {
        c as int - 87
    } else {
        c as int - 55
    }
}

/// The bytes that the text `s` spells out, two digits per byte with the high
/// digit first; `None` for an odd number of characters or a non-digit.
pub open spec fn hex_decoded(s: Seq<char>) -> Option<Seq<u8>> {
    if s.len() % 2 == 0 && forall|i: int| 0 <= i < s.len() ==> is_hex_digit(#[trigger] s[i]) {
        Some(
            Seq::new(
                (s.len() / 2) as nat,
                |k: int| (hex_value(s[2 * k]) * 16 + hex_value(s[2 * k + 1])) as u8,
            ),
        )
    } else {
        None
    }
}

/// The lowercase hexadecimal digit for `n` in `0..16`.
pub open spec fn hex_digit_char(n: int) -> char {
    if n < 10 {
        (n + 48) as char
    } else {
        (n + 87) as char
    }
}

/// The lowercase hexadecimal text of `b`, two digits per byte, high digit first.
pub open spec fn hex_encoded(b: Seq<u8>) -> Seq<char> {
    Seq::new(
        2 * b.len(),
        |i: int|
            if i % 2 == 0 {
                hex_digit_char(b[i / 2] as int / 16)
            } else {
                hex_digit_char(b[i / 2] as int % 16)
            },
    )
}

/// `s` with every space character taken out.
pub open spec fn without_spaces(s: Seq<char>) -> Seq<char> {
    s.filter(|c: char| c != ' ')
}

/// Relies on `hex::decode`: it accepts exactly an even number of hexadecimal
/// digits of either case and turns each pair into one byte, high digit first.
#[verifier::external_body]
pub(crate) fn decode_hex(s: &str) -> (r: Option<Vec<u8>>)
    ensures
        match r {
            Some(v) => hex_decoded(s@) == Some(v@),
            None => hex_decoded(s@) is None,
        },
{
    hex::decode(s).ok()
}

/// Relies on `hex::encode`: two lowercase digits per byte, high digit first.
#[verifier::external_body]
pub(crate) fn encode_hex(b: &[u8]) -> (r: String)
    ensures
        r@ == hex_encoded(b@),
{
    hex::encode(b)
}

/// Relies on `str::replace`: replacing every `" "` by `""` drops each space
/// and keeps the other characters in order.
#[verifier::external_body]
pub(crate) fn strip_spaces(s: &str) -> (r: String)
    ensures
        r@ == without_spaces(s@),
{
    s.replace(" ", "")
}

} // verus!
