//! X25519 key agreement and the derivation of the initial ratchet keys.

use vstd::prelude::*;
use vstd::string::StringSliceAdditionalSpecFns;

verus! {

/// The X25519 public key (u-coordinate) of a 32-byte secret.
pub uninterp spec fn spec_x25519_public(secret: Seq<u8>) -> Seq<u8>;

/// The X25519 shared secret of a 32-byte secret and another party's public key.
pub uninterp spec fn spec_x25519_shared(secret: Seq<u8>, their_public: Seq<u8>) -> Seq<u8>;

/// HKDF-SHA256 (RFC 5869) with no salt: `len` bytes of output keying
/// material from input keying material `ikm` and context `info`.
pub uninterp spec fn spec_hkdf_sha256(ikm: Seq<u8>, info: Seq<u8>, len: nat) -> Seq<u8>;

#[verifier::external_type_specification]
#[verifier::external_body]
pub struct ExInvalidLength(hkdf::InvalidLength);

/// Calls `x25519_dalek::StaticSecret::random_from_rng` with
/// `aes_gcm::aead::OsRng` and returns the secret's bytes
/// (`StaticSecret::to_bytes`). Nothing is claimed of the bytes.
#[verifier::external_body]
fn random_static_secret() -> [u8; 32] {
    x25519_dalek::StaticSecret::random_from_rng(aes_gcm::aead::OsRng).to_bytes()
}

/// Builds `x25519_dalek::PublicKey::from(&StaticSecret::from(secret))` and
/// returns its bytes. Claimed: the result is `spec_x25519_public` of the secret.
#[verifier::external_body]
fn x25519_public(secret: &[u8; 32]) -> (r: [u8; 32])
    ensures
        r@ == spec_x25519_public(secret@),
{
    x25519_dalek::PublicKey::from(&x25519_dalek::StaticSecret::from(*secret)).to_bytes()
}

/// Calls `x25519_dalek::StaticSecret::diffie_hellman` of the secret built
/// from `secret` on `PublicKey::from(their_public)`, and returns the shared
/// secret's bytes. Claimed: the result is `spec_x25519_shared` of the two
/// inputs, and both parties get the same shared secret (the crate's README
/// shows this): when `their_public` is the public key of a secret `other`,
/// the result is also what `other` gets with this secret's public key.
#[verifier::external_body]
fn x25519_diffie_hellman(secret: &[u8; 32], their_public: &[u8; 32]) -> (r: [u8; 32])
    ensures
        r@ == spec_x25519_shared(secret@, their_public@),
        forall|other: Seq<u8>|
            other.len() == 32 && #[trigger] spec_x25519_public(other) == their_public@ ==> r@
                == spec_x25519_shared(other, spec_x25519_public(secret@)),
{
    x25519_dalek::StaticSecret::from(*secret).diffie_hellman(&x25519_dalek::PublicKey::from(*their_public)).to_bytes()
}

/// Runs `hkdf::Hkdf::<sha2::Sha256>::new(None, ikm)` (HKDF-Extract without
/// salt) and `expand(info, ..)` into a buffer of `len` bytes. Claimed: it
/// fails exactly when `len` exceeds 255 blocks of 32 bytes (the check in the
/// crate's `expand_multi_info`), and otherwise returns `spec_hkdf_sha256` of
/// the inputs, `len` bytes long.
#[verifier::external_body]
fn hkdf_sha256(ikm: &[u8], info: &[u8], len: usize) -> (r: Result<Vec<u8>, hkdf::InvalidLength>)
    ensures
        r is Ok <==> len <= 255 * 32,
        r matches Ok(v) ==> v@ == spec_hkdf_sha256(ikm@, info@, len as nat) && v@.len() == len,
{
    let mut okm = vec![0u8; len];
    hkdf::Hkdf::<sha2::Sha256>::new(None, ikm).expand(info, &mut okm).map(|_| okm)
}

/// The HKDF context of the root key.
pub open spec fn root_key_info() -> Seq<u8> {
    "CHUDO-v1-RootKey".spec_bytes()
}

/// The HKDF context of the two chain keys.
pub open spec fn chain_keys_info() -> Seq<u8> {
    "CHUDO-v1-ChainKeys".spec_bytes()
}

/// The root key derived from a shared secret.
pub open spec fn spec_root_key(shared: Seq<u8>) -> Seq<u8> {
    spec_hkdf_sha256(shared, root_key_info(), 32)
}

/// The 64 bytes of chain keys derived from a root key.
pub open spec fn spec_chain_keys(root: Seq<u8>) -> Seq<u8> {
    spec_hkdf_sha256(root, chain_keys_info(), 64)
}

/// Whether `st` is the initial ratchet state of a party holding the shared
/// secret `shared`: the initiator sends with the first chain key and
/// receives with the second; the responder the other way round.
pub open spec fn is_initial_ratchet(st: RatchetState, shared: Seq<u8>, is_initiator: bool) -> bool {
    let root = spec_root_key(shared);
    let chain = spec_chain_keys(root);
    &&& st.root_key@ == root
    &&& st.sending_chain@ == (if is_initiator { chain.subrange(0, 32) } else { chain.subrange(32, 64) })
    &&& st.receiving_chain@ == (if is_initiator { chain.subrange(32, 64) } else { chain.subrange(0, 32) })
    &&& st.sending_message_number == 0
    &&& st.receiving_message_number == 0
}

/// Two parties holding the same shared secret, one as initiator and one as
/// responder, get the same root key, and each sends on the chain the other
/// receives on.
pub proof fn law_ratchet_roles_mirror(a: RatchetState, b: RatchetState, shared: Seq<u8>)
    requires
        is_initial_ratchet(a, shared, true),
        is_initial_ratchet(b, shared, false),
    ensures
        a.root_key == b.root_key,
        a.sending_chain == b.receiving_chain,
        a.receiving_chain == b.sending_chain,
{
    assert(a.root_key =~= b.root_key);
    assert(a.sending_chain =~= b.receiving_chain);
    assert(a.receiving_chain =~= b.sending_chain);
}

/// Why the initial ratchet could not be derived.
#[derive(Debug, Clone, Copy, PartialEq, Eq)]
pub enum CipherError {
    /// The root key derivation failed.
    RootKeyDerivation,
    /// The chain key derivation failed.
    ChainKeyDerivation,
}

/// A party's X25519 key pair.
pub struct CHUDOCipher {
    static_secret: [u8; 32],
    public_key: [u8; 32],
}

/// The keys and counters of a double-ratchet session.
pub struct RatchetState {
    pub root_key: [u8; 32],
    pub sending_chain: [u8; 32],
    pub receiving_chain: [u8; 32],
    pub sending_message_number: u64,
    pub receiving_message_number: u64,
}

/// The first 32 bytes of `v` from position `start`.
fn take32(v: &Vec<u8>, start: usize) -> (r: [u8; 32])
    requires
        start + 32 <= v@.len(),
    ensures
        r@ == v@.subrange(start as int, start + 32),
{
    let mut out = [0u8; 32];
    let n = v.len();
    let mut i: usize = 0;
    while i < 32
        invariant
            i <= 32,
            n == v@.len(),
            start + 32 <= v@.len(),
            forall|j: int| 0 <= j < i ==> out@[j] == v@[start + j],
        decreases 32 - i,
    {
        out[i] = v[start + i];
        i = i + 1;
    }
    assert(out@ =~= v@.subrange(start as int, start + 32));
    out
}

impl CHUDOCipher {
    /// The secret's bytes.
    pub closed spec fn secret_bytes(&self) -> Seq<u8> {
        self.static_secret@
    }

    /// The cipher's invariant: the public key belongs to the secret.
    pub closed spec fn wf(&self) -> bool {
        self.public_key@ == spec_x25519_public(self.static_secret@)
    }

    /// A key pair from a fresh random secret.
    pub fn generate() -> (r: Self)
        ensures
            r.wf(),
            r.secret_bytes().len() == 32,
    {
        let secret = random_static_secret();
        let public = x25519_public(&secret);
        CHUDOCipher { static_secret: secret, public_key: public }
    }

    /// The public key's bytes.
    pub fn public_key_bytes(&self) -> (r: [u8; 32])
        requires
            self.wf(),
        ensures
            r@ == spec_x25519_public(self.secret_bytes()),
            self.secret_bytes().len() == 32,
    {
        self.public_key
    }

    /// Derives the initial ratchet state shared with the holder of
    /// `their_public`: the X25519 shared secret gives the root key, the root
    /// key gives two chain keys, and `is_initiator` decides which chain sends.
    /// When `their_public` belongs to a secret `other`, the state is also the
    /// one derived from what `other` shares with this key pair.
    pub fn initialize_ratchet(&self, their_public: [u8; 32], is_initiator: bool) -> (r: Result<RatchetState, CipherError>)
        requires
            self.wf(),
        ensures
            r matches Ok(st) && is_initial_ratchet(st, spec_x25519_shared(self.secret_bytes(), their_public@), is_initiator),
            forall|other: Seq<u8>|
                other.len() == 32 && #[trigger] spec_x25519_public(other) == their_public@ ==> (r matches Ok(st)
                    && is_initial_ratchet(st, spec_x25519_shared(other, spec_x25519_public(self.secret_bytes())), is_initiator)),
    {
        let shared = x25519_diffie_hellman(&self.static_secret, &their_public);
        let root_info: &str = "CHUDO-v1-RootKey";
        let root = match hkdf_sha256(&shared, root_info.as_bytes(), 32) {
            Ok(v) => v,
            Err(_) => return Err(CipherError::RootKeyDerivation),
        };
        let root_key = take32(&root, 0);
        assert(root_key@ =~= root@);
        let chain_info: &str = "CHUDO-v1-ChainKeys";
        let chain_keys = match hkdf_sha256(&root_key, chain_info.as_bytes(), 64) {
            Ok(v) => v,
            Err(_) => return Err(CipherError::ChainKeyDerivation),
        };
        let first = take32(&chain_keys, 0);
        let second = take32(&chain_keys, 32);
        let (sending, receiving) = if is_initiator {
            (first, second)
        } else {
            (second, first)
        };
        Ok(RatchetState {
            root_key,
            sending_chain: sending,
            receiving_chain: receiving,
            sending_message_number: 0,
            receiving_message_number: 0,
        })
    }
}

} // verus!
