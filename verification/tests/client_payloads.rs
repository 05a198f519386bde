use chudo::grpc_client::{create_test_block_bytes, create_test_transaction_bytes};

#[test]
fn transaction_payload_and_digest() {
    let (bytes, hash) = create_test_transaction_bytes(1700000000123);
    assert_eq!(bytes, b"test_tx_1700000000123".to_vec());
    assert_eq!(hash, format!("{:x}", md5::compute(&bytes)));
    assert_eq!(hash.len(), 32);
    let (zero, _) = create_test_transaction_bytes(0);
    assert_eq!(zero, b"test_tx_0".to_vec());
}

#[test]
fn block_payload_and_digest() {
    let (bytes, hash) = create_test_block_bytes(1, 42);
    assert_eq!(bytes, b"test_block_1_42".to_vec());
    assert_eq!(hash, format!("{:x}", md5::compute(b"test_block_1_42")));
    let (big, _) = create_test_block_bytes(u64::MAX, u128::MAX);
    assert_eq!(big, format!("test_block_{}_{}", u64::MAX, u128::MAX).into_bytes());
}
