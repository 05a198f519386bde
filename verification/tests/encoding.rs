use chudo::block::{Block, BlockHeader};
use chudo::encoding::{encode_block, encode_header, encode_transaction};
use chudo::transaction::Transaction;

fn header() -> BlockHeader {
    BlockHeader {
        version: 7,
        prev_hash: [3u8; 32],
        merkle_root: [4u8; 32],
        timestamp: 0x0102030405060708,
        difficulty: 0xa0b0c0d0,
        nonce: 42,
        miner: [5u8; 32],
        height: 9,
    }
}

fn header_tuple(h: &BlockHeader) -> (u32, [u8; 32], [u8; 32], u64, u32, u64, [u8; 32], u64) {
    (h.version, h.prev_hash, h.merkle_root, h.timestamp, h.difficulty, h.nonce, h.miner, h.height)
}

fn tx_tuple(t: &Transaction) -> ([u8; 32], [u8; 32], u64, u64, u64, Option<Vec<u8>>, [u8; 32], i64) {
    (t.sender, t.recipient, t.amount, t.fee, t.nonce, t.signature.clone(), t.hash, t.timestamp)
}

#[test]
fn header_encoding_matches_bincode() {
    let h = header();
    let ours = encode_header(&h);
    assert_eq!(ours.len(), 128);
    assert_eq!(ours, bincode::serialize(&header_tuple(&h)).unwrap());
    assert_eq!(&ours[0..4], &[7, 0, 0, 0]);
    assert_eq!(&ours[68..76], &[8, 7, 6, 5, 4, 3, 2, 1]);
}

#[test]
fn transaction_encoding_matches_bincode() {
    let mut t = Transaction::new([1u8; 32], [2u8; 32], 1000, 3, 77);
    t.timestamp = -2;
    assert_eq!(encode_transaction(&t), bincode::serialize(&tx_tuple(&t)).unwrap());
    t.signature = Some(vec![9, 8, 7]);
    let enc = encode_transaction(&t);
    assert_eq!(enc, bincode::serialize(&tx_tuple(&t)).unwrap());
    assert_eq!(enc.len(), 32 + 32 + 24 + 1 + 8 + 3 + 32 + 8);
}

#[test]
fn block_encoding_matches_bincode() {
    let mut t1 = Transaction::new([1u8; 32], [2u8; 32], 5, 1, 0);
    t1.signature = Some(vec![1, 2]);
    let t2 = Transaction::new([2u8; 32], [1u8; 32], 6, 0, 1);
    let b = Block::new(header(), vec![t1, t2]);
    let tuple = (
        header_tuple(&b.header),
        b.transactions.iter().map(tx_tuple).collect::<Vec<_>>(),
        b.hash,
    );
    assert_eq!(encode_block(&b), bincode::serialize(&tuple).unwrap());
}
