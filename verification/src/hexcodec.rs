//! Hexadecimal text for byte strings, through the `hex` crate.

use vstd::prelude::*;

verus! {

/// The lower-case hexadecimal digit for `n < 16`.
pub open spec fn hex_digit(n: u8) -> char {
    if n < 10 {
        (48 + n) as char
    } else {
        (87 + n) as char
    }
}

/// The value of a hexadecimal digit of either case, if `c` is one.
pub open spec fn hex_value(c: char) -> Option<u8> {
    if '0' <= c && c <= '9' {
        Some((c as int - 48) as u8)
    } else if 'a' <= c && c <= 'f' {
        Some((c as int - 87) as u8)
    } else if 'A' <= c && c <= 'F' {
        Some((c as int - 55) as u8)
    } else {
        None
    }
}

/// Lower-case hexadecimal text of `b`: two digits per byte, high nibble first.
pub open spec fn spec_hex_encode(b: Seq<u8>) -> Seq<char>
    decreases b.len(),
{
    if b.len() == 0 {
        Seq::empty()
    } else {
        seq![hex_digit(b[0] / 16), hex_digit(b[0] % 16)] + spec_hex_encode(b.drop_first())
    }
}

/// The bytes that hexadecimal text `s` stands for: `None` when its length is
/// odd or a character is not a hexadecimal digit.
pub open spec fn spec_hex_decode(s: Seq<char>) -> Option<Seq<u8>>
    decreases s.len(),
{
    if s.len() == 0 {
        Some(Seq::empty())
    } else if s.len() == 1 {
        None
    } else {
        match (hex_value(s[0]), hex_value(s[1]), spec_hex_decode(s.skip(2))) {
            (Some(hi), Some(lo), Some(rest)) => Some(seq![(hi * 16 + lo) as u8] + rest),
            _ => None,
        }
    }
}

#[verifier::external_type_specification]
#[verifier::external_body]
pub struct ExFromHexError(hex::FromHexError);

/// Calls `hex::encode` on `data`. Claimed: lower-case digits, two per byte,
/// high nibble first (the crate's `HEX_CHARS_LOWER` table and
/// `BytesToHexChars`).
#[verifier::external_body]
pub(crate) fn hex_encode(data: &[u8]) -> (r: String)
    ensures
        r@ == spec_hex_encode(data@),
{
    hex::encode(data)
}

/// Calls `hex::decode` on the UTF-8 bytes of `text`. Claimed: it succeeds
/// exactly when the text is an even number of hexadecimal digits of either
/// case (any other character, non-ASCII ones included, is refused), and then
/// returns the bytes they stand for (the crate's `val` and `FromHex for Vec<u8>`).
#[verifier::external_body]
pub(crate) fn hex_decode(text: &str) -> (r: Result<Vec<u8>, hex::FromHexError>)
    ensures
        r is Ok <==> spec_hex_decode(text@) is Some,
        r matches Ok(v) ==> spec_hex_decode(text@) == Some(v@),
{
    hex::decode(text)
}

/// The hexadecimal text of `b` has two digits per byte.
pub proof fn law_hex_len(b: Seq<u8>)
    ensures
        spec_hex_encode(b).len() == 2 * b.len(),
    decreases b.len(),
{
    if b.len() > 0 {
        law_hex_len(b.drop_first());
    }
}

/// Decoding the hexadecimal text of any bytes gives back those bytes.
pub proof fn law_hex_roundtrip(b: Seq<u8>)
    ensures
        spec_hex_decode(spec_hex_encode(b)) == Some(b),
    decreases b.len(),
{
    if b.len() > 0 {
        let s = spec_hex_encode(b);
        let rest = spec_hex_encode(b.drop_first());
        law_hex_roundtrip(b.drop_first());
        assert(s.skip(2) =~= rest);
        let hi = b[0] / 16;
        let lo = b[0] % 16;
        assert(hex_value(hex_digit(hi)) == Some(hi));
        assert(hex_value(hex_digit(lo)) == Some(lo));
        assert(seq![(hi * 16 + lo) as u8] + b.drop_first() =~= b);
    }
}

} // verus!
