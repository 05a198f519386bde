//! The payloads the gRPC check client submits: a text naming the kind of
//! object and the current time, and the MD5 digest of that text.

use vstd::prelude::*;
use vstd::string::StringSliceAdditionalSpecFns;
use crate::encoding::append_bytes;
use crate::hexcodec::spec_hex_encode;

verus! {

/// The MD5 digest of `data` (RFC 1321).
pub uninterp spec fn spec_md5(data: Seq<u8>) -> Seq<u8>;

/// Calls `md5::compute` on `data` and renders the digest with `{:x}`.
/// Claimed: the text is the digest named `spec_md5` in lower-case
/// hexadecimal, two digits per byte (the crate's `LowerHex` writes each byte
/// as `{:02x}`).
#[verifier::external_body]
fn md5_hex(data: &[u8]) -> (r: String)
    ensures
        r@ == spec_hex_encode(spec_md5(data@)),
{
    format!("{:x}", md5::compute(data))
}

/// The ASCII decimal digits of `n`, most significant first, no leading zeros.
pub open spec fn spec_decimal(n: nat) -> Seq<u8>
    decreases n,
{
    if n < 10 {
        seq![(48 + n) as u8]
    } else {
        spec_decimal(n / 10).push((48 + n % 10) as u8)
    }
}

/// The number that ASCII decimal digits `s` spell, most significant first.
pub open spec fn decimal_value(s: Seq<u8>) -> int
    decreases s.len(),
{
    if s.len() == 0 {
        0
    } else {
        decimal_value(s.drop_last()) * 10 + (s.last() - 48)
    }
}

/// The decimal text of `n` is its base-10 rendering: at least one digit,
/// every byte an ASCII digit, no leading zero unless `n` is 0 (which is the
/// single digit `0`), and the digits spell `n` back.
pub proof fn law_decimal_spells_n(n: nat)
    ensures
        spec_decimal(n).len() >= 1,
        forall|i: int| 0 <= i < spec_decimal(n).len() ==> 48 <= #[trigger] spec_decimal(n)[i] <= 57,
        n > 0 ==> spec_decimal(n)[0] != 48,
        n == 0 ==> spec_decimal(n) == seq![48u8],
        decimal_value(spec_decimal(n)) == n,
    decreases n,
{
    if n < 10 {
        let s = spec_decimal(n);
        assert(s.drop_last() =~= Seq::<u8>::empty());
        assert(decimal_value(s.drop_last()) == 0);
        assert(s.last() == 48 + n);
        assert(decimal_value(s) == decimal_value(s.drop_last()) * 10 + (s.last() - 48));
    } else {
        let q = n / 10;
        let r = n % 10;
        assert(n == q * 10 + r) by (nonlinear_arith)
            requires
                q == n / 10,
                r == n % 10,
        ;
        assert(q > 0 && q < n);
        law_decimal_spells_n(q);
        let s = spec_decimal(n);
        let p = spec_decimal(q);
        assert(s == p.push((48 + r) as u8));
        assert(s.drop_last() =~= p);
        assert(s[0] == p[0]);
        assert(s.last() == 48 + r);
        assert(decimal_value(s) == decimal_value(p) * 10 + (s.last() - 48));
        assert forall|i: int| 0 <= i < s.len() implies 48 <= #[trigger] s[i] <= 57 by {
            if i < p.len() {
                assert(s[i] == p[i]);
            }
        }
    }
}

/// Appending a digit multiplies a number by ten and adds the digit: the
/// text of `10 * q + r` is the text of `q` followed by the digit `r`.
pub proof fn law_decimal_next_digit(q: nat, r: nat)
    requires
        q > 0,
        r < 10,
    ensures
        spec_decimal(10 * q + r) == spec_decimal(q).push((48 + r) as u8),
{
    let n = 10 * q + r;
    assert(n / 10 == q && n % 10 == r) by (nonlinear_arith)
        requires
            n == 10 * q + r,
            r < 10,
    ;
}

/// Appends the decimal digits of `n` to `out`.
fn append_decimal(out: &mut Vec<u8>, n: u128)
    ensures
        final(out)@ == old(out)@ + spec_decimal(n as nat),
    decreases n,
{
    if n >= 10 {
        append_decimal(out, n / 10);
    }
    let d = (48 + n % 10) as u8;
    out.push(d);
    assert(out@ =~= old(out)@ + spec_decimal(n as nat));
}

/// The payload of a check transaction made at `now_millis` (milliseconds
/// since the Unix epoch): the text `test_tx_<millis>`, and its MD5 digest
/// in hexadecimal.
pub fn create_test_transaction_bytes(now_millis: u128) -> (r: (Vec<u8>, String))
    ensures
        r.0@ == "test_tx_".spec_bytes() + spec_decimal(now_millis as nat),
        r.1@ == spec_hex_encode(spec_md5(r.0@)),
{
    let mut bytes: Vec<u8> = Vec::new();
    append_bytes(&mut bytes, "test_tx_".as_bytes());
    append_decimal(&mut bytes, now_millis);
    let hash = md5_hex(bytes.as_slice());
    (bytes, hash)
}

/// The payload of a check block of height `height` made at `now_millis`:
/// the text `test_block_<height>_<millis>`, and its MD5 digest in hexadecimal.
pub fn create_test_block_bytes(height: u64, now_millis: u128) -> (r: (Vec<u8>, String))
    ensures
        r.0@ == "test_block_".spec_bytes() + spec_decimal(height as nat) + "_".spec_bytes() + spec_decimal(
            now_millis as nat,
        ),
        r.1@ == spec_hex_encode(spec_md5(r.0@)),
{
    let mut bytes: Vec<u8> = Vec::new();
    append_bytes(&mut bytes, "test_block_".as_bytes());
    append_decimal(&mut bytes, height as u128);
    append_bytes(&mut bytes, "_".as_bytes());
    append_decimal(&mut bytes, now_millis);
    let hash = md5_hex(bytes.as_slice());
    (bytes, hash)
}

} // verus!
