use chudo::crypto::{hash, hash_encoded, k_heavy_hash, verify, KeyPair};
use chudo::transaction::Transaction;
use ed25519_dalek::Signer;
use sha3::{Digest, Sha3_256};

fn hex32(s: &str) -> Vec<u8> {
    hex::decode(s).unwrap()
}

#[test]
fn hash_encoded_is_sha3_256() {
    assert_eq!(
        hash_encoded(b"").to_vec(),
        hex32("a7ffc6f8bf1ed76651c14756a061d662f580ff4de43b49fa82d80a4b80f8434a")
    );
    assert_eq!(
        hash_encoded(b"abc").to_vec(),
        hex32("3a985da74fe225b2045c172d6bd390bd855f086e3e9d525b46bfe24511431532")
    );
}

#[test]
fn hash_of_a_slice_covers_its_length() {
    for data in [&b""[..], &b"abc"[..], &[7u8; 100][..]] {
        let expected = Sha3_256::digest(bincode::serialize(data).unwrap()).to_vec();
        assert_eq!(hash(data).to_vec(), expected);
        let mut framed = (data.len() as u64).to_le_bytes().to_vec();
        framed.extend_from_slice(data);
        assert_eq!(hash(data), hash_encoded(&framed));
        assert_ne!(hash(data), hash_encoded(data));
    }
}

fn reference_k_heavy_hash(data: &[u8]) -> Vec<u8> {
    let mut state = Sha3_256::digest(data).to_vec();
    for i in 0..64u32 {
        for j in 0..state.len() {
            let next = state[(j + 1) % state.len()];
            state[j] = state[j].wrapping_add(next ^ (i as u8));
        }
    }
    Sha3_256::digest(&state).to_vec()
}

#[test]
fn k_heavy_hash_follows_its_definition() {
    for data in [&b""[..], &b"chudo"[..], &[0u8; 200][..]] {
        let h = k_heavy_hash(data);
        assert_eq!(h.len(), 32);
        assert_eq!(h, reference_k_heavy_hash(data));
        assert_ne!(h, Sha3_256::digest(data).to_vec());
    }
}

#[test]
fn transaction_hash_covers_the_encoding() {
    let mut t = Transaction::new([1u8; 32], [2u8; 32], 10, 1, 0);
    let expected = hash_encoded(&chudo::encoding::encode_transaction(&t));
    let h = t.calculate_hash();
    assert_eq!(h, expected);
    assert_eq!(t.hash, h);
    assert_eq!(t.amount, 10);
    // Hashing again covers the stored hash, so the result changes.
    let h2 = t.calculate_hash();
    assert_ne!(h, h2);
}

#[test]
fn signatures_verify_under_the_signer_key() {
    let kp = KeyPair::random();
    let msg = b"pay alice 10";
    let sig = kp.sign(msg);
    let pk = kp.public_key();
    assert!(verify(&pk, msg, &sig));
    assert!(!verify(&pk, b"pay alice 11", &sig));
    let mut bad = sig;
    bad[0] ^= 1;
    assert!(!verify(&pk, msg, &bad));
    let other = KeyPair::random();
    assert!(!verify(&other.public_key(), msg, &sig));
}

#[test]
fn verify_rejects_a_key_that_is_not_a_point() {
    let kp = KeyPair::random();
    let sig = kp.sign(b"m");
    let mut pk = [0u8; 32];
    pk[0] = 2;
    pk[31] = 0x7f;
    let direct = ed25519_dalek::VerifyingKey::from_bytes(&pk).is_ok();
    if !direct {
        assert!(!verify(&pk, b"m", &sig));
    }
}

#[test]
fn signature_matches_ed25519_dalek() {
    let kp = KeyPair::random();
    let sig = kp.sign(b"hello");
    let pk = kp.public_key();
    let vk = ed25519_dalek::VerifyingKey::from_bytes(&pk).unwrap();
    let s = ed25519_dalek::Signature::from_bytes(&sig);
    assert!(ed25519_dalek::Verifier::verify(&vk, b"hello", &s).is_ok());
    let _ = ed25519_dalek::SigningKey::from_bytes(&[1u8; 32]).sign(b"x");
}
