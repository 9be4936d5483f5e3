//! Hexadecimal text of byte strings, as carried by the wallet's artifacts.
use vstd::prelude::*;

verus! {

/// The lower-case hex digit of a value below sixteen.
pub open spec fn digit_char(n: u8) -> char {
    if n < 10 {
        ((n as u32) + 48) as char
    } else {
        ((n as u32) + 87) as char
    }
}

/// The value of a hex digit of either case, or `None` for any other character.
pub open spec fn digit_value(c: char) -> Option<u8> {
    if '0' <= c && c <= '9' {
        Some(((c as u32) - 48) as u8)
    } else if 'a' <= c && c <= 'f' {
        Some(((c as u32) - 87) as u8)
    } else if 'A' <= c && c <= 'F' {
        Some(((c as u32) - 55) as u8)
    } else {
        None
    }
}

/// Lower-case hex text of a byte string: two digits per byte, high nibble first.
pub open spec fn hex_of(b: Seq<u8>) -> Seq<char>
    decreases b.len(),
{
    if b.len() == 0 {
        Seq::empty()
    } else {
        seq![digit_char(b[0] / 16), digit_char(b[0] % 16)] + hex_of(b.skip(1))
    }
}

/// The bytes that a hex text stands for, or `None` when the text has odd
/// length or a character that is not a hex digit.
pub open spec fn hex_value(s: Seq<char>) -> Option<Seq<u8>>
    decreases s.len(),
{
    if s.len() == 0 {
        Some(Seq::empty())
    } else if s.len() == 1 {
        None
    } else {
        match (digit_value(s[0]), digit_value(s[1]), hex_value(s.skip(2))) {
            (Some(h), Some(l), Some(rest)) => Some(seq![(h * 16 + l) as u8] + rest),
            _ => None,
        }
    }
}

proof fn lemma_digit_round_trip(n: u8)
    requires
        n < 16,
    ensures
        digit_value(digit_char(n)) == Some(n),
{
}

/// Decoding the hex text of any byte string gives back that byte string.
pub proof fn lemma_hex_round_trip(b: Seq<u8>)
    ensures
        hex_value(hex_of(b)) == Some(b),
    decreases b.len(),
{
    if b.len() > 0 {
        let x = b[0];
        lemma_digit_round_trip(x / 16);
        lemma_digit_round_trip(x % 16);
        lemma_hex_round_trip(b.skip(1));
        let s = hex_of(b);
        assert(s.skip(2) =~= hex_of(b.skip(1)));
        assert(((x / 16) * 16 + x % 16) as u8 == x);
        assert(seq![x] + b.skip(1) =~= b);
    }
}

/// Relies on hex::encode: two lower-case digits per byte, high nibble first.
#[verifier::external_body]
pub(crate) fn encode_hex(b: &[u8]) -> (r: String)
    ensures
        r@ == hex_of(b@),
{
    hex::encode(b)
}

/// Relies on hex::decode: it accepts exactly the even-length texts of hex
/// digits of either case, and returns the bytes they stand for.
#[verifier::external_body]
pub(crate) fn decode_hex(s: &str) -> (r: Option<Vec<u8>>)
    ensures
        r matches Some(v) ==> hex_value(s@) == Some(v@),
        r is None ==> hex_value(s@) is None,
{
    hex::decode(s).ok()
}

} // verus!
