//! The byte layout that block and transaction hashes are computed over.
//!
//! Integers are written little-endian at their full width, fixed-size byte
//! arrays are written as they are, a byte vector or a list is written as its
//! length (a little-endian `u64`) followed by its elements, and an optional
//! value is written as a tag byte (`0` for absent, `1` for present) followed
//! by the value when it is present. Struct fields follow one another in
//! declaration order with nothing between them.

use vstd::prelude::*;
use vstd::bytes::*;
use crate::block::{Block, BlockHeader, BlockModel};
use crate::transaction::{Transaction, TransactionModel};

verus! {

/// The encoding of a `u32`: four bytes, least significant first.
pub open spec fn spec_le_u32(x: u32) -> Seq<u8> {
    spec_u32_to_le_bytes(x)
}

/// The encoding of a `u64`: eight bytes, least significant first.
pub open spec fn spec_le_u64(x: u64) -> Seq<u8> {
    spec_u64_to_le_bytes(x)
}

/// The encoding of an `i64`: its two's complement bits, least significant byte first.
pub open spec fn spec_le_i64(x: i64) -> Seq<u8> {
    spec_u64_to_le_bytes(x as u64)
}

/// The encoding of a byte vector: its length, then its bytes.
pub open spec fn spec_encode_byte_vec(s: Seq<u8>) -> Seq<u8> {
    spec_le_u64(s.len() as u64) + s
}

/// The encoding of an optional byte vector.
pub open spec fn spec_encode_opt_bytes(o: Option<Seq<u8>>) -> Seq<u8> {
    match o {
        None => seq![0u8],
        Some(s) => seq![1u8] + spec_encode_byte_vec(s),
    }
}

/// The encoding of a transaction whose hash field holds `hash`.
pub open spec fn spec_encode_transaction_with_hash(t: TransactionModel, hash: Seq<u8>) -> Seq<u8> {
    t.sender@ + t.recipient@ + spec_le_u64(t.amount) + spec_le_u64(t.fee) + spec_le_u64(t.nonce)
        + spec_encode_opt_bytes(t.signature) + hash + spec_le_i64(t.timestamp)
}

/// The encoding of a transaction.
pub open spec fn spec_encode_transaction(t: TransactionModel) -> Seq<u8> {
    spec_encode_transaction_with_hash(t, t.hash@)
}

/// The encodings of the transactions of `ts`, one after another.
pub open spec fn spec_encode_transaction_items(ts: Seq<TransactionModel>) -> Seq<u8>
    decreases ts.len(),
{
    if ts.len() == 0 {
        Seq::empty()
    } else {
        spec_encode_transaction_items(ts.drop_last()) + spec_encode_transaction(ts.last())
    }
}

/// The encoding of a list of transactions: its length, then the items.
pub open spec fn spec_encode_transactions(ts: Seq<TransactionModel>) -> Seq<u8> {
    spec_le_u64(ts.len() as u64) + spec_encode_transaction_items(ts)
}

/// The encoding of a block header.
pub open spec fn spec_encode_header(h: BlockHeader) -> Seq<u8> {
    spec_le_u32(h.version) + h.prev_hash@ + h.merkle_root@ + spec_le_u64(h.timestamp)
        + spec_le_u32(h.difficulty) + spec_le_u64(h.nonce) + h.miner@ + spec_le_u64(h.height)
}

/// The encoding of a block.
pub open spec fn spec_encode_block(b: BlockModel) -> Seq<u8> {
    spec_encode_header(b.header) + spec_encode_transactions(b.transactions) + b.hash
}

/// A block header always encodes to 128 bytes.
pub proof fn law_header_encoding_len(h: BlockHeader)
    ensures
        spec_encode_header(h).len() == 128,
{
    lemma_auto_spec_u32_to_from_le_bytes();
    lemma_auto_spec_u64_to_from_le_bytes();
}

/// A header's encoding holds each field at a fixed place, in bincode's
/// order, so every field reads back from it: version at 0, previous hash at
/// 4, Merkle root at 36, timestamp at 68, difficulty at 76, nonce at 80,
/// miner at 88 and height at 120. Two headers with the same encoding are
/// the same header.
pub proof fn law_header_encoding_reads_back(h: BlockHeader, g: BlockHeader)
    ensures
        spec_u32_from_le_bytes(spec_encode_header(h).subrange(0, 4)) == h.version,
        spec_encode_header(h).subrange(4, 36) == h.prev_hash@,
        spec_encode_header(h).subrange(36, 68) == h.merkle_root@,
        spec_u64_from_le_bytes(spec_encode_header(h).subrange(68, 76)) == h.timestamp,
        spec_u32_from_le_bytes(spec_encode_header(h).subrange(76, 80)) == h.difficulty,
        spec_u64_from_le_bytes(spec_encode_header(h).subrange(80, 88)) == h.nonce,
        spec_encode_header(h).subrange(88, 120) == h.miner@,
        spec_u64_from_le_bytes(spec_encode_header(h).subrange(120, 128)) == h.height,
        spec_encode_header(h) == spec_encode_header(g) ==> h == g,
{
    lemma_auto_spec_u32_to_from_le_bytes();
    lemma_auto_spec_u64_to_from_le_bytes();
    let e = spec_encode_header(h);
    assert(e.subrange(0, 4) =~= spec_le_u32(h.version));
    assert(e.subrange(4, 36) =~= h.prev_hash@);
    assert(e.subrange(36, 68) =~= h.merkle_root@);
    assert(e.subrange(68, 76) =~= spec_le_u64(h.timestamp));
    assert(e.subrange(76, 80) =~= spec_le_u32(h.difficulty));
    assert(e.subrange(80, 88) =~= spec_le_u64(h.nonce));
    assert(e.subrange(88, 120) =~= h.miner@);
    assert(e.subrange(120, 128) =~= spec_le_u64(h.height));
    let f = spec_encode_header(g);
    assert(f.subrange(0, 4) =~= spec_le_u32(g.version));
    assert(f.subrange(4, 36) =~= g.prev_hash@);
    assert(f.subrange(36, 68) =~= g.merkle_root@);
    assert(f.subrange(68, 76) =~= spec_le_u64(g.timestamp));
    assert(f.subrange(76, 80) =~= spec_le_u32(g.difficulty));
    assert(f.subrange(80, 88) =~= spec_le_u64(g.nonce));
    assert(f.subrange(88, 120) =~= g.miner@);
    assert(f.subrange(120, 128) =~= spec_le_u64(g.height));
    if e == f {
        assert(h.prev_hash@ == g.prev_hash@);
        assert(h.prev_hash =~= g.prev_hash);
        assert(h.merkle_root@ == g.merkle_root@);
        assert(h.merkle_root =~= g.merkle_root);
        assert(h.miner@ == g.miner@);
        assert(h.miner =~= g.miner);
    }
}

/// The 32-byte array whose bytes are `s` (meaningful when `s` has 32 bytes).
pub open spec fn array32(s: Seq<u8>) -> [u8; 32] {
    choose|a: [u8; 32]| a@ == s
}

/// The 32 bytes of `v`, when it has exactly 32.
pub fn to_array32(v: &Vec<u8>) -> (r: Option<[u8; 32]>)
    ensures
        r is Some <==> v@.len() == 32,
        r matches Some(a) ==> a@ == v@ && a == array32(v@),
{
    if v.len() != 32 {
        return None;
    }
    let mut out = [0u8; 32];
    let mut i: usize = 0;
    while i < 32
        invariant
            i <= 32,
            v@.len() == 32,
            forall|j: int| 0 <= j < i ==> out@[j] == v@[j],
        decreases 32 - i,
    {
        out[i] = v[i];
        i = i + 1;
    }
    assert(out@ =~= v@);
    assert(array32(v@)@ == v@);
    assert(array32(v@) =~= out);
    Some(out)
}

/// Appends `data` to `out`.
pub fn append_bytes(out: &mut Vec<u8>, data: &[u8])
    ensures
        final(out)@ == old(out)@ + data@,
{
    out.extend_from_slice(data);
    assert(out@ =~= old(out)@ + data@);
}

/// Appends the encoding of `x` to `out`.
pub fn append_u32(out: &mut Vec<u8>, x: u32)
    ensures
        final(out)@ == old(out)@ + spec_le_u32(x),
{
    let b = u32_to_le_bytes(x);
    append_bytes(out, b.as_slice());
}

/// Appends the encoding of `x` to `out`.
pub fn append_u64(out: &mut Vec<u8>, x: u64)
    ensures
        final(out)@ == old(out)@ + spec_le_u64(x),
{
    let b = u64_to_le_bytes(x);
    append_bytes(out, b.as_slice());
}

/// Appends the encoding of `x` to `out`.
pub fn append_i64(out: &mut Vec<u8>, x: i64)
    ensures
        final(out)@ == old(out)@ + spec_le_i64(x),
{
    append_u64(out, x as u64);
}

/// Appends the encoding of an optional byte vector to `out`.
pub fn append_opt_bytes(out: &mut Vec<u8>, o: &Option<Vec<u8>>)
    ensures
        final(out)@ == old(out)@ + spec_encode_opt_bytes(crate::transaction::opt_bytes_view(*o)),
{
    match o {
        None => {
            out.push(0u8);
            assert(out@ =~= old(out)@ + seq![0u8]);
        },
        Some(v) => {
            out.push(1u8);
            append_u64(out, v.len() as u64);
            append_bytes(out, v.as_slice());
            assert(out@ =~= old(out)@ + (seq![1u8] + (spec_le_u64(v@.len() as u64) + v@)));
        },
    }
}

/// Appends the encoding of a transaction to `out`.
pub fn append_transaction(out: &mut Vec<u8>, t: &Transaction)
    ensures
        final(out)@ == old(out)@ + spec_encode_transaction(t@),
{
    let ghost start = out@;
    append_bytes(out, &t.sender);
    append_bytes(out, &t.recipient);
    append_u64(out, t.amount);
    append_u64(out, t.fee);
    append_u64(out, t.nonce);
    append_opt_bytes(out, &t.signature);
    append_bytes(out, &t.hash);
    append_i64(out, t.timestamp);
    assert(out@ =~= start + spec_encode_transaction(t@));
}

/// The encoding of a transaction.
pub fn encode_transaction(t: &Transaction) -> (r: Vec<u8>)
    ensures
        r@ == spec_encode_transaction(t@),
{
    let mut out: Vec<u8> = Vec::new();
    append_transaction(&mut out, t);
    assert(out@ =~= spec_encode_transaction(t@));
    out
}

/// Appends the encoding of a block header to `out`.
pub fn append_header(out: &mut Vec<u8>, h: &BlockHeader)
    ensures
        final(out)@ == old(out)@ + spec_encode_header(*h),
{
    let ghost start = out@;
    append_u32(out, h.version);
    append_bytes(out, &h.prev_hash);
    append_bytes(out, &h.merkle_root);
    append_u64(out, h.timestamp);
    append_u32(out, h.difficulty);
    append_u64(out, h.nonce);
    append_bytes(out, &h.miner);
    append_u64(out, h.height);
    assert(out@ =~= start + spec_encode_header(*h));
}

/// The encoding of a block header.
pub fn encode_header(h: &BlockHeader) -> (r: Vec<u8>)
    ensures
        r@ == spec_encode_header(*h),
{
    let mut out: Vec<u8> = Vec::new();
    append_header(&mut out, h);
    assert(out@ =~= spec_encode_header(*h));
    out
}

/// The encoding of a block.
pub fn encode_block(b: &Block) -> (r: Vec<u8>)
    ensures
        r@ == spec_encode_block(b@),
{
    let mut out: Vec<u8> = Vec::new();
    append_header(&mut out, &b.header);
    let ghost after_header = out@;
    let n = b.transactions.len();
    append_u64(&mut out, n as u64);
    let ghost txs = b@.transactions;
    let mut i: usize = 0;
    while i < n
        invariant
            n == b.transactions@.len(),
            txs == b@.transactions,
            i <= n,
            out@ == after_header + spec_le_u64(n as u64) + spec_encode_transaction_items(txs.take(i as int)),
        decreases n - i,
    {
        append_transaction(&mut out, &b.transactions[i]);
        assert(txs.take(i + 1).drop_last() =~= txs.take(i as int));
        assert(txs.take(i + 1).last() == txs[i as int]);
        i = i + 1;
    }
    assert(txs.take(n as int) =~= txs);
    append_bytes(&mut out, &b.hash);
    assert(out@ =~= spec_encode_block(b@));
    out
}

} // verus!
