use chudo::node::grpc::{
    BalanceRequest, BlockRequest, ChainInfoRequest, Code, GrpcService, MineBlockRequest,
    SubmitTransactionRequest, parse_hex32, request_parses,
};
use chudo::state::BlockchainState;

fn service() -> GrpcService {
    GrpcService { state: BlockchainState::new() }
}

fn miner_hex() -> String {
    hex::encode([1u8; 32])
}

#[test]
fn balance_request_errors() {
    let s = service();
    let e = s.get_balance(BalanceRequest { address: "zz".to_string() }).err().unwrap();
    assert_eq!(e.code, Code::InvalidArgument);
    assert_eq!(e.message, "Invalid address format");
    let e = s.get_balance(BalanceRequest { address: "abc".to_string() }).err().unwrap();
    assert_eq!(e.message, "Invalid address format");
    let e = s.get_balance(BalanceRequest { address: "abcd".to_string() }).err().unwrap();
    assert_eq!(e.code, Code::InvalidArgument);
    assert_eq!(e.message, "Address must be 32 bytes");
}

#[test]
fn mine_then_query_balance() {
    let mut s = service();
    let r = s.mine_block(MineBlockRequest { miner_address: miner_hex() }).ok().unwrap();
    assert_eq!(r.height, 1);
    assert_eq!(r.transactions_count, 0);
    assert_eq!(r.block_hash, hex::encode(s.state.last_hash));
    let b = s.get_balance(BalanceRequest { address: miner_hex().to_uppercase() }).ok().unwrap();
    assert_eq!(b.balance, 50);
    assert_eq!(b.nonce, 0);
    let info = s.get_chain_info(ChainInfoRequest).ok().unwrap();
    assert_eq!(info.height, 1);
    assert_eq!(info.total_supply, 100_000_000);
    assert_eq!(info.peer_count, 0);
    assert!(!info.is_syncing);
}

#[test]
fn mine_request_errors() {
    let mut s = service();
    let e = s.mine_block(MineBlockRequest { miner_address: "xyz".to_string() }).err().unwrap();
    assert_eq!(e.message, "Invalid miner address");
    let e = s.mine_block(MineBlockRequest { miner_address: "00".to_string() }).err().unwrap();
    assert_eq!(e.message, "Invalid miner len");
    assert_eq!(s.state.current_height(), 0);
}

fn submit(from: String, to: String, amount: u64, signature: &str) -> SubmitTransactionRequest {
    SubmitTransactionRequest { from, to, amount, fee: 1, nonce: 3, signature: signature.to_string() }
}

#[test]
fn submit_transaction_flow() {
    let mut s = service();
    s.mine_block(MineBlockRequest { miner_address: miner_hex() }).ok().unwrap();
    let to = hex::encode([2u8; 32]);
    let r = s.submit_transaction(submit(miner_hex(), to.clone(), 10, "beef")).ok().unwrap();
    assert_eq!(r.status, "Pending");
    let queued = &s.state.mempool[0];
    assert_eq!(queued.signature, Some(vec![0xbe, 0xef]));
    assert_eq!(queued.nonce, 3);
    assert_eq!(r.hash, hex::encode(queued.hash));
    let mut unhashed = chudo::transaction::Transaction::new([1u8; 32], [2u8; 32], 10, 1, 3);
    unhashed.signature = Some(vec![0xbe, 0xef]);
    assert_eq!(queued.hash, unhashed.calculate_hash());
    let e = s.submit_transaction(submit(to.clone(), miner_hex(), 10, "")).err().unwrap();
    assert_eq!(e.code, Code::Internal);
    assert_eq!(e.message, "Insufficient funds");
    assert_eq!(s.state.mempool.len(), 1);
    let m = s.mine_block(MineBlockRequest { miner_address: miner_hex() }).ok().unwrap();
    assert_eq!(m.transactions_count, 1);
    let bal = s.get_balance(BalanceRequest { address: to }).ok().unwrap();
    assert_eq!(bal.balance, 10);
}

#[test]
fn submit_transaction_errors_in_order() {
    let mut s = service();
    let good = miner_hex();
    let e = s.submit_transaction(submit("q".to_string(), "q".to_string(), 1, "q")).err().unwrap();
    assert_eq!(e.message, "Invalid sender");
    let e = s.submit_transaction(submit(good.clone(), "q".to_string(), 1, "q")).err().unwrap();
    assert_eq!(e.message, "Invalid recipient");
    let e = s.submit_transaction(submit(good.clone(), good.clone(), 1, "q")).err().unwrap();
    assert_eq!(e.message, "Invalid signature");
    let e = s.submit_transaction(submit("00".to_string(), "00".to_string(), 1, "")).err().unwrap();
    assert_eq!(e.message, "Invalid sender len");
    let e = s.submit_transaction(submit(good.clone(), "00".to_string(), 1, "")).err().unwrap();
    assert_eq!(e.message, "Invalid recipient len");
    assert_eq!(e.code, Code::InvalidArgument);
}

#[test]
fn block_lookup() {
    let mut s = service();
    s.mine_block(MineBlockRequest { miner_address: miner_hex() }).ok().unwrap();
    let h = hex::encode(s.state.last_hash);
    let b = s.get_block(BlockRequest { hash: h.clone() }).ok().unwrap();
    assert_eq!(b.hash, h);
    assert_eq!(b.prev_hash, hex::encode([0u8; 32]));
    assert_eq!(b.height, 1);
    assert_eq!(b.timestamp, 123456789);
    assert_eq!(b.miner, miner_hex());
    assert!(b.transactions.is_empty());
    let e = s.get_block(BlockRequest { hash: hex::encode([9u8; 32]) }).err().unwrap();
    assert_eq!(e.code, Code::NotFound);
    assert_eq!(e.message, "Block not found");
    let e = s.get_block(BlockRequest { hash: "g".to_string() }).err().unwrap();
    assert_eq!(e.message, "Invalid hash");
    let e = s.get_block(BlockRequest { hash: "00ff".to_string() }).err().unwrap();
    assert_eq!(e.message, "Invalid hash len");
}

#[test]
fn block_description_lists_transactions() {
    let mut st = BlockchainState::new();
    st.mine_block([1u8; 32]);
    let mut t = chudo::transaction::Transaction::new([1u8; 32], [2u8; 32], 4, 1, 0);
    t.signature = Some(vec![0xab]);
    t.timestamp = -1;
    st.add_transaction(t).unwrap();
    let b = st.mine_block([1u8; 32]);
    let d = chudo::node::grpc::map_block_to_proto(&b);
    assert_eq!(d.transactions.len(), 1);
    let td = &d.transactions[0];
    assert_eq!(td.from, hex::encode([1u8; 32]));
    assert_eq!(td.to, hex::encode([2u8; 32]));
    assert_eq!(td.signature, "ab");
    assert_eq!(td.amount, 4);
    assert_eq!(td.timestamp, u64::MAX);
    let unsigned = chudo::transaction::Transaction::new([1u8; 32], [2u8; 32], 4, 1, 0);
    assert_eq!(chudo::node::grpc::map_tx_to_proto(&unsigned).signature, "");
}

#[test]
fn hex32_parsing() {
    assert_eq!(parse_hex32(&hex::encode([7u8; 32])), Some([7u8; 32]));
    assert_eq!(parse_hex32("zz"), None);
    assert_eq!(parse_hex32(&hex::encode([7u8; 31])), None);
    let ok = submit(miner_hex(), hex::encode([2u8; 32]), 5, "abcd");
    assert!(request_parses(&ok));
    let bad_sig = submit(miner_hex(), hex::encode([2u8; 32]), 5, "xyz");
    assert!(!request_parses(&bad_sig));
    let short_to = submit(miner_hex(), hex::encode([2u8; 4]), 5, "abcd");
    assert!(!request_parses(&short_to));
}
