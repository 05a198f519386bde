#[test]
fn hex_encoding_used_by_services() {
    // The services render bytes with lower-case digits and accept either case.
    let d = chudo::node::grpc::map_tx_to_proto(&chudo::transaction::Transaction::new([0xabu8; 32], [0u8; 32], 0, 0, 0));
    assert_eq!(d.from, "ab".repeat(32));
    assert_eq!(d.to, "00".repeat(32));
}
