//! Blocks: a header, the transactions it carries and its hash.

use vstd::prelude::*;
use crate::crypto;
use crate::encoding::{append_bytes, encode_header, encode_transaction, spec_encode_header, spec_encode_transaction};
use crate::transaction::{Transaction, TransactionModel};

verus! {

/// The fixed-size part of a block.
#[derive(Debug, Clone, Copy)]
pub struct BlockHeader {
    pub version: u32,
    pub prev_hash: [u8; 32],
    pub merkle_root: [u8; 32],
    pub timestamp: u64,
    pub difficulty: u32,
    pub nonce: u64,
    pub miner: [u8; 32],
    pub height: u64,
}

/// A block of transactions.
#[derive(Debug)]
pub struct Block {
    pub header: BlockHeader,
    pub transactions: Vec<Transaction>,
    pub hash: [u8; 32],
}

/// The mathematical value of a [`Block`].
pub struct BlockModel {
    pub header: BlockHeader,
    pub transactions: Seq<TransactionModel>,
    pub hash: Seq<u8>,
}

/// The views of a sequence of transactions.
pub open spec fn txs_view(txs: Seq<Transaction>) -> Seq<TransactionModel> {
    txs.map_values(|t: Transaction| t@)
}

impl View for Block {
    type V = BlockModel;

    open spec fn view(&self) -> BlockModel {
        BlockModel { header: self.header, transactions: txs_view(self.transactions@), hash: self.hash@ }
    }
}

/// The header hash of a block: kHeavyHash over the encoded header.
pub open spec fn spec_header_hash(header: BlockHeader) -> Seq<u8> {
    crypto::spec_k_heavy_hash(spec_encode_header(header))
}

/// A block's header hash is kHeavyHash of the header's 128-byte encoding:
/// SHA3-256 of the encoding, 64 mixing rounds over that digest, then SHA3-256
/// of the mixed bytes.
pub proof fn law_header_hash_is_k_heavy_hash(header: BlockHeader)
    ensures
        spec_header_hash(header) == crypto::spec_sha3_256(
            crypto::spec_mix_rounds(crypto::spec_sha3_256(spec_encode_header(header)), 64),
        ),
        spec_encode_header(header).len() == 128,
{
    crate::encoding::law_header_encoding_len(header);
}

/// Copies a list of transactions.
pub fn clone_transactions(txs: &Vec<Transaction>) -> (r: Vec<Transaction>)
    ensures
        txs_view(r@) == txs_view(txs@),
{
    let mut out: Vec<Transaction> = Vec::new();
    let mut i: usize = 0;
    while i < txs.len()
        invariant
            i <= txs.len(),
            out@.len() == i,
            forall|k: int| 0 <= k < i ==> #[trigger] out@[k]@ == txs@[k]@,
        decreases txs.len() - i,
    {
        let t = txs[i].clone();
        out.push(t);
        i = i + 1;
    }
    assert(txs_view(out@) =~= txs_view(txs@));
    out
}

impl Clone for Block {
    fn clone(&self) -> (r: Self)
        ensures
            r@ == self@,
    {
        Block { header: self.header, transactions: clone_transactions(&self.transactions), hash: self.hash }
    }
}

impl Block {
    /// A block over `header` and `transactions`, whose hash is the header hash.
    pub fn new(header: BlockHeader, transactions: Vec<Transaction>) -> (r: Self)
        ensures
            r.header == header,
            r.transactions@ == transactions@,
            r.hash@ == spec_header_hash(header),
            r.hash@ == crypto::spec_sha3_256(
                crypto::spec_mix_rounds(crypto::spec_sha3_256(spec_encode_header(header)), 64),
            ),
    {
        let mut block = Block { header, transactions, hash: [0u8; 32] };
        block.hash = block.calculate_hash();
        block
    }

    /// kHeavyHash of the encoded header, cut to 32 bytes.
    pub fn calculate_hash(&self) -> (r: [u8; 32])
        ensures
            r@ == spec_header_hash(self.header),
            r@ == crypto::spec_sha3_256(
                crypto::spec_mix_rounds(crypto::spec_sha3_256(spec_encode_header(self.header)), 64),
            ),
    {
        let data = encode_header(&self.header);
        let hash_vec = crypto::k_heavy_hash(data.as_slice());
        let mut hash = [0u8; 32];
        if hash_vec.len() >= 32 {
            let mut i: usize = 0;
            while i < 32
                invariant
                    i <= 32,
                    hash_vec@.len() == 32,
                    forall|j: int| 0 <= j < i ==> hash@[j] == hash_vec@[j],
                decreases 32 - i,
            {
                hash[i] = hash_vec[i];
                i = i + 1;
            }
            assert(hash@ =~= hash_vec@);
        }
        hash
    }
}

} // verus!
