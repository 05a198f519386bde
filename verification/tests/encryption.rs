use chudo::messenger::encryption::CHUDOCipher;
use hkdf::Hkdf;
use sha2::Sha256;

#[test]
fn ratchet_roles_mirror() {
    let alice = CHUDOCipher::generate();
    let bob = CHUDOCipher::generate();
    let a = alice.initialize_ratchet(bob.public_key_bytes(), true).unwrap();
    let b = bob.initialize_ratchet(alice.public_key_bytes(), false).unwrap();
    assert_eq!(a.root_key, b.root_key);
    assert_eq!(a.sending_chain, b.receiving_chain);
    assert_eq!(a.receiving_chain, b.sending_chain);
    assert_ne!(a.sending_chain, a.receiving_chain);
    assert_eq!(a.sending_message_number, 0);
    assert_eq!(b.receiving_message_number, 0);
}

#[test]
fn ratchet_keys_follow_hkdf() {
    let alice = CHUDOCipher::generate();
    let bob_secret = x25519_dalek::StaticSecret::from([7u8; 32]);
    let bob_public = x25519_dalek::PublicKey::from(&bob_secret);
    let st = alice.initialize_ratchet(bob_public.to_bytes(), true).unwrap();
    let shared = bob_secret.diffie_hellman(&x25519_dalek::PublicKey::from(alice.public_key_bytes()));
    let mut root = [0u8; 32];
    Hkdf::<Sha256>::new(None, shared.as_bytes()).expand(b"CHUDO-v1-RootKey", &mut root).unwrap();
    let mut chain = [0u8; 64];
    Hkdf::<Sha256>::new(None, &root).expand(b"CHUDO-v1-ChainKeys", &mut chain).unwrap();
    assert_eq!(st.root_key, root);
    assert_eq!(&st.sending_chain[..], &chain[0..32]);
    assert_eq!(&st.receiving_chain[..], &chain[32..64]);
}

#[test]
fn cipher_public_key_matches_x25519() {
    let c = CHUDOCipher::generate();
    assert_ne!(c.public_key_bytes(), [0u8; 32]);
    let other = CHUDOCipher::generate();
    assert_ne!(c.public_key_bytes(), other.public_key_bytes());
}
