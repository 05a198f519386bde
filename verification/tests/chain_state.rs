use chudo::block::Block;
use chudo::dag::BlockDAG;
use chudo::state::BlockchainState;
use chudo::transaction::Transaction;

const MINER: [u8; 32] = [1u8; 32];
const ALICE: [u8; 32] = [2u8; 32];

#[test]
fn new_chain_is_empty() {
    let s = BlockchainState::new();
    assert_eq!(s.current_height(), 0);
    assert_eq!(s.last_hash, [0u8; 32]);
    assert_eq!(s.get_balance(&MINER), 0);
    assert_eq!(s.total_supply(), 0);
    assert!(s.mempool.is_empty());
}

#[test]
fn mining_pays_the_reward_and_links_blocks() {
    let mut s = BlockchainState::new();
    assert!(s.can_mine_block(MINER));
    let b1 = s.mine_block(MINER);
    assert_eq!(b1.header.height, 1);
    assert_eq!(b1.header.prev_hash, [0u8; 32]);
    assert_eq!(b1.header.version, 1);
    assert_eq!(b1.header.timestamp, 123456789);
    assert_eq!(b1.header.difficulty, 1);
    assert_eq!(b1.header.miner, MINER);
    assert_eq!(s.current_height(), 1);
    assert_eq!(s.last_hash, b1.hash);
    assert_eq!(s.get_balance(&MINER), 50);
    assert_eq!(s.total_supply(), 50);
    let b2 = s.mine_block(MINER);
    assert_eq!(b2.header.prev_hash, b1.hash);
    assert_eq!(b2.header.height, 2);
    assert_ne!(b1.hash, b2.hash);
    assert_eq!(s.get_balance(&MINER), 100);
}

#[test]
fn mined_block_can_be_fetched_by_hash() {
    let mut s = BlockchainState::new();
    let b = s.mine_block(MINER);
    let stored = s.get_block(&b.hash).expect("block stored");
    assert_eq!(stored.hash, b.hash);
    assert_eq!(stored.header.height, 1);
    assert!(s.get_block(&[9u8; 32]).is_none());
}

#[test]
fn insufficient_funds_are_refused() {
    let mut s = BlockchainState::new();
    let tx = Transaction::new(ALICE, MINER, 10, 1, 0);
    let r = s.add_transaction(tx);
    assert_eq!(r, Err("Insufficient funds".to_string()));
    assert!(s.mempool.is_empty());
}

#[test]
fn transfer_moves_funds_and_burns_the_fee() {
    let mut s = BlockchainState::new();
    s.mine_block(MINER);
    assert!(s.add_transaction(Transaction::new(MINER, ALICE, 10, 2, 0)).is_ok());
    assert_eq!(s.mempool.len(), 1);
    let b = s.mine_block(MINER);
    assert_eq!(b.transactions.len(), 1);
    assert!(s.mempool.is_empty());
    assert_eq!(s.get_balance(&ALICE), 10);
    assert_eq!(s.get_balance(&MINER), 50 + 50 - 12);
    assert_eq!(s.total_supply(), 100 - 2);
}

#[test]
fn unpaid_transfer_still_credits_the_recipient() {
    let mut s = BlockchainState::new();
    s.mine_block(MINER);
    assert!(s.add_transaction(Transaction::new(MINER, ALICE, 40, 0, 0)).is_ok());
    assert!(s.add_transaction(Transaction::new(MINER, ALICE, 40, 0, 1)).is_ok());
    s.mine_block([7u8; 32]);
    // The first transfer is paid; when the second comes the sender has 10
    // left, so it keeps them while the recipient is credited anyway.
    assert_eq!(s.get_balance(&MINER), 10);
    assert_eq!(s.get_balance(&ALICE), 80);
    assert_eq!(s.total_supply(), 50 + 50 + 40);
}

#[test]
fn mining_is_refused_when_a_balance_would_overflow() {
    let mut s = BlockchainState::new();
    s.mine_block(MINER);
    s.balances.set(ALICE, u64::MAX - 5);
    assert!(s.add_transaction(Transaction::new(MINER, ALICE, 10, 0, 0)).is_ok());
    assert!(!s.can_mine_block(MINER));
}

#[test]
fn block_hash_depends_on_the_header() {
    let mut s = BlockchainState::new();
    let b = s.mine_block(MINER);
    let again = Block::new(b.header, Vec::new());
    assert_eq!(again.hash, b.calculate_hash());
    assert_ne!(again.hash, b.hash);
}

#[test]
fn dag_records_tips_once() {
    let mut s = BlockchainState::new();
    let b = s.mine_block(MINER);
    let mut dag = BlockDAG::new();
    assert!(!dag.is_tip(&b.hash));
    dag.add_block(&b);
    dag.add_block(&b);
    assert!(dag.is_tip(&b.hash));
    assert!(!dag.is_tip(&[0u8; 32]));
}

#[test]
fn height_counts_mined_blocks_and_every_mined_block_is_stored() {
    let mut s = BlockchainState::new();
    let mut hashes = Vec::new();
    for round in 0..4u64 {
        assert_eq!(s.current_height(), round);
        let b = s.mine_block(MINER);
        assert_eq!(b.header.height, round + 1);
        hashes.push(b.hash);
        if round == 1 {
            assert!(s.add_transaction(Transaction::new(MINER, ALICE, 10, 1, 0)).is_ok());
            assert_eq!(s.current_height(), 2);
        }
    }
    assert_eq!(s.current_height(), 4);
    for (i, h) in hashes.iter().enumerate() {
        let stored = s.get_block(h).unwrap();
        assert_eq!(stored.hash, *h);
        assert_eq!(stored.header.height, i as u64 + 1);
    }
    assert!(s.get_block(&[9u8; 32]).is_none());
}

#[test]
fn fee_is_burned_when_a_third_party_mines() {
    let mut s = BlockchainState::new();
    let b1 = s.mine_block([1u8; 32]);
    assert!(s.add_transaction(Transaction::new([1u8; 32], [2u8; 32], 30, 5, 0)).is_ok());
    let b2 = s.mine_block([3u8; 32]);
    assert_eq!(b2.header.height, 2);
    assert_eq!(b2.header.prev_hash, b1.hash);
    assert_eq!(b2.transactions.len(), 1);
    assert_eq!(s.get_balance(&[1u8; 32]), 15);
    assert_eq!(s.get_balance(&[2u8; 32]), 30);
    assert_eq!(s.get_balance(&[3u8; 32]), 50);
    assert_eq!(s.total_supply(), 95);
    assert!(s.mempool.is_empty());
}
