//! Hashing (SHA3-256 and kHeavyHash) and Ed25519 signatures.

use vstd::prelude::*;
use crate::encoding::{append_bytes, append_u64, spec_encode_byte_vec};
use ed25519_dalek::{Signer, Verifier};
use rand::RngCore;
use sha3::Digest;

verus! {

// ---------------------------------------------------------------------------
// SHA3-256
// ---------------------------------------------------------------------------

/// The SHA3-256 digest of `data` (FIPS 202).
pub uninterp spec fn spec_sha3_256(data: Seq<u8>) -> Seq<u8>;

/// Calls `sha3::Sha3_256::digest` (the `Digest` trait's one-shot method) on
/// `data`. Claimed: the result is the digest named `spec_sha3_256` of the
/// input bytes.
#[verifier::external_body]
fn sha3_256(data: &[u8]) -> (r: [u8; 32])
    ensures
        r@ == spec_sha3_256(data@),
{
    sha3::Sha3_256::digest(data).into()
}

/// The hash of an encoded value: SHA3-256 of its bytes.
pub open spec fn spec_hash(encoded: Seq<u8>) -> Seq<u8> {
    spec_sha3_256(encoded)
}

/// The hash of an encoded value (see `crate::encoding` for the encodings):
/// the 32-byte SHA3-256 digest of the encoding.
pub fn hash_encoded(encoded: &[u8]) -> (r: [u8; 32])
    ensures
        r@ == spec_hash(encoded@),
        spec_hash(encoded@).len() == 32,
{
    sha3_256(encoded)
}

/// The hash of a byte slice as a value: the digest of its encoding, which
/// is its length as a little-endian `u64` followed by its bytes.
pub fn hash(data: &[u8]) -> (r: [u8; 32])
    ensures
        r@ == spec_hash(spec_encode_byte_vec(data@)),
        r@.len() == 32,
{
    let mut encoded: Vec<u8> = Vec::new();
    append_u64(&mut encoded, data.len() as u64);
    append_bytes(&mut encoded, data);
    assert(encoded@ =~= spec_encode_byte_vec(data@));
    hash_encoded(encoded.as_slice())
}

// ---------------------------------------------------------------------------
// kHeavyHash
// ---------------------------------------------------------------------------

/// `a + b` modulo 256.
pub open spec fn spec_add_mod256(a: u8, b: u8) -> u8 {
    ((a as int + b as int) % 256) as u8
}

/// One mixing step at position `j` of round `round`: the byte at `j` is
/// increased (mod 256) by its right-hand neighbour (cyclically) xor `round`.
pub open spec fn spec_mix_step(state: Seq<u8>, round: u8, j: int) -> Seq<u8> {
    state.update(j, spec_add_mod256(state[j], state[(j + 1) % (state.len() as int)] ^ round))
}

/// The first `j` mixing steps of round `round`, applied left to right.
pub open spec fn spec_mix_steps(state: Seq<u8>, round: u8, j: nat) -> Seq<u8>
    decreases j,
{
    if j == 0 {
        state
    } else {
        spec_mix_step(spec_mix_steps(state, round, (j - 1) as nat), round, j - 1)
    }
}

/// One full round: a mixing step at every position, left to right.
pub open spec fn spec_mix_round(state: Seq<u8>, round: u8) -> Seq<u8> {
    spec_mix_steps(state, round, state.len())
}

/// Rounds `0 .. rounds` applied in order.
pub open spec fn spec_mix_rounds(state: Seq<u8>, rounds: nat) -> Seq<u8>
    decreases rounds,
{
    if rounds == 0 {
        state
    } else {
        spec_mix_round(spec_mix_rounds(state, (rounds - 1) as nat), (rounds - 1) as u8)
    }
}

/// kHeavyHash: SHA3-256, 64 mixing rounds, SHA3-256 again.
pub open spec fn spec_k_heavy_hash(data: Seq<u8>) -> Seq<u8> {
    spec_sha3_256(spec_mix_rounds(spec_sha3_256(data), 64))
}

proof fn lemma_mix_steps_len(state: Seq<u8>, round: u8, j: nat)
    requires
        j <= state.len(),
    ensures
        spec_mix_steps(state, round, j).len() == state.len(),
    decreases j,
{
    if j > 0 {
        lemma_mix_steps_len(state, round, (j - 1) as nat);
    }
}

proof fn lemma_mix_rounds_len(state: Seq<u8>, rounds: nat)
    ensures
        spec_mix_rounds(state, rounds).len() == state.len(),
    decreases rounds,
{
    if rounds > 0 {
        let prev = spec_mix_rounds(state, (rounds - 1) as nat);
        lemma_mix_rounds_len(state, (rounds - 1) as nat);
        lemma_mix_steps_len(prev, (rounds - 1) as u8, prev.len());
    }
}

/// Runs one mixing round over `state` in place.
fn mix_round(state: &mut Vec<u8>, round: u8)
    requires
        old(state)@.len() > 0,
    ensures
        final(state)@ == spec_mix_round(old(state)@, round),
{
    let len = state.len();
    let ghost start = state@;
    let mut j: usize = 0;
    while j < len
        invariant
            len == start.len(),
            j <= len,
            state@ == spec_mix_steps(start, round, j as nat),
        decreases len - j,
    {
        proof {
            lemma_mix_steps_len(start, round, j as nat);
        }
        let next_val = state[(j + 1) % len];
        let cur = state[j];
        let v = cur.wrapping_add(next_val ^ round);
        state.set(j, v);
        j = j + 1;
    }
}

/// kHeavyHash of `data`: 32 bytes.
pub fn k_heavy_hash(data: &[u8]) -> (r: Vec<u8>)
    ensures
        r@ == spec_k_heavy_hash(data@),
        r@.len() == 32,
{
    let first = sha3_256(data);
    let mut state: Vec<u8> = Vec::new();
    append_bytes(&mut state, &first);
    let ghost start = state@;
    let mut i: u8 = 0;
    while i < 64
        invariant
            i <= 64,
            start == spec_sha3_256(data@),
            start.len() == 32,
            state@ == spec_mix_rounds(start, i as nat),
        decreases 64 - i,
    {
        proof {
            lemma_mix_rounds_len(start, i as nat);
        }
        mix_round(&mut state, i);
        i = i + 1;
    }
    let last = sha3_256(state.as_slice());
    let mut out: Vec<u8> = Vec::new();
    append_bytes(&mut out, &last);
    out
}

// ---------------------------------------------------------------------------
// Ed25519
// ---------------------------------------------------------------------------

/// The Ed25519 public key (compressed point) of a 32-byte secret key.
pub uninterp spec fn spec_ed25519_public(secret: Seq<u8>) -> Seq<u8>;

/// The Ed25519 signature of `message` under a 32-byte secret key (RFC 8032).
pub uninterp spec fn spec_ed25519_sign(secret: Seq<u8>, message: Seq<u8>) -> Seq<u8>;

/// Whether `public` decodes to a curve point under which `signature` is a
/// valid Ed25519 signature of `message`.
pub uninterp spec fn spec_ed25519_verify(public: Seq<u8>, message: Seq<u8>, signature: Seq<u8>) -> bool;

/// Fills 32 bytes from `rand::rngs::OsRng` (`RngCore::fill_bytes`).
/// Nothing is claimed of the bytes.
#[verifier::external_body]
fn os_random_32() -> [u8; 32] {
    let mut bytes = [0u8; 32];
    rand::rngs::OsRng.fill_bytes(&mut bytes);
    bytes
}

/// Calls `ed25519_dalek::SigningKey::verifying_key` on the key built from
/// `secret` by `SigningKey::from_bytes`, and returns the key's bytes.
/// Claimed: the result is `spec_ed25519_public` of the secret.
#[verifier::external_body]
fn ed25519_public_key(secret: &[u8; 32]) -> (r: [u8; 32])
    ensures
        r@ == spec_ed25519_public(secret@),
{
    ed25519_dalek::SigningKey::from_bytes(secret).verifying_key().to_bytes()
}

/// Calls `Signer::sign` of `ed25519_dalek::SigningKey` (built from `secret`
/// by `SigningKey::from_bytes`) on `message`, and returns the signature's
/// bytes. Claimed: the result is `spec_ed25519_sign` of the secret and the
/// message (Ed25519 signing is deterministic).
#[verifier::external_body]
fn ed25519_sign(secret: &[u8; 32], message: &[u8]) -> (r: [u8; 64])
    ensures
        r@ == spec_ed25519_sign(secret@, message@),
{
    ed25519_dalek::SigningKey::from_bytes(secret).sign(message).to_bytes()
}

/// Calls `ed25519_dalek::VerifyingKey::from_bytes` on `public`; when that
/// fails the answer is `false`, else `Verifier::verify` of that key on the
/// message and the signature built by `Signature::from_bytes`, `true` when
/// it returns `Ok`. Claimed: the result is `spec_ed25519_verify` of the
/// three inputs, and it is `true` whenever the signature was made by the
/// secret key whose public key is `public` (Ed25519's correctness, which
/// the crate's documentation shows).
#[verifier::external_body]
fn ed25519_verify(public: &[u8; 32], message: &[u8], signature: &[u8; 64]) -> (r: bool)
    ensures
        r == spec_ed25519_verify(public@, message@, signature@),
        (exists|s: Seq<u8>|
            s.len() == 32 && #[trigger] spec_ed25519_public(s) == public@
                && spec_ed25519_sign(s, message@) == signature@) ==> r,
{
    match ed25519_dalek::VerifyingKey::from_bytes(public) {
        Ok(key) => key.verify(message, &ed25519_dalek::Signature::from_bytes(signature)).is_ok(),
        Err(_) => false,
    }
}

/// An Ed25519 signing key. It has no `Debug`, so that the secret bytes are
/// never printed.
pub struct KeyPair {
    secret: [u8; 32],
}

impl KeyPair {
    /// The 32 secret bytes the key was made from.
    pub closed spec fn secret_bytes(&self) -> Seq<u8> {
        self.secret@
    }

    /// A key made from 32 bytes of the operating system's randomness.
    pub fn random() -> (r: Self)
        ensures
            r.secret_bytes().len() == 32,
    {
        let bytes = os_random_32();
        KeyPair { secret: bytes }
    }

    /// The Ed25519 signature of `message` under this key.
    pub fn sign(&self, message: &[u8]) -> (r: [u8; 64])
        ensures
            r@ == spec_ed25519_sign(self.secret_bytes(), message@),
    {
        ed25519_sign(&self.secret, message)
    }

    /// The public key of this key.
    pub fn public_key(&self) -> (r: [u8; 32])
        ensures
            r@ == spec_ed25519_public(self.secret_bytes()),
            self.secret_bytes().len() == 32,
    {
        ed25519_public_key(&self.secret)
    }
}

/// Whether `signature` is a valid Ed25519 signature of `message` under `pub_key`.
/// A signature made by a key pair always verifies under that pair's public key.
pub fn verify(pub_key: &[u8; 32], message: &[u8], signature: &[u8; 64]) -> (r: bool)
    ensures
        r == spec_ed25519_verify(pub_key@, message@, signature@),
        (exists|s: Seq<u8>|
            s.len() == 32 && #[trigger] spec_ed25519_public(s) == pub_key@
                && spec_ed25519_sign(s, message@) == signature@) ==> r,
{
    ed25519_verify(pub_key, message, signature)
}

} // verus!
