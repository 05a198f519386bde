//! Transfers of value between two 32-byte addresses.

use vstd::prelude::*;
use crate::crypto;
use crate::encoding::{append_bytes, encode_header, encode_transaction, spec_encode_header, spec_encode_transaction};

verus! {

/// A transfer of `amount` from `sender` to `recipient`, paying `fee`.
#[derive(Debug)]
pub struct Transaction {
    pub sender: [u8; 32],
    pub recipient: [u8; 32],
    pub amount: u64,
    pub fee: u64,
    pub nonce: u64,
    pub signature: Option<Vec<u8>>,
    pub hash: [u8; 32],
    pub timestamp: i64,
}

/// The mathematical value of a [`Transaction`]: the signature is a sequence of bytes.
pub struct TransactionModel {
    pub sender: [u8; 32],
    pub recipient: [u8; 32],
    pub amount: u64,
    pub fee: u64,
    pub nonce: u64,
    pub signature: Option<Seq<u8>>,
    pub hash: [u8; 32],
    pub timestamp: i64,
}

/// Thirty-two zero bytes.
pub open spec fn zero_bytes32() -> Seq<u8> {
    Seq::new(32, |i: int| 0u8)
}

/// The view of an optional byte vector.
pub open spec fn opt_bytes_view(o: Option<Vec<u8>>) -> Option<Seq<u8>> {
    match o {
        Some(v) => Some(v@),
        None => None,
    }
}

impl View for Transaction {
    type V = TransactionModel;

    open spec fn view(&self) -> TransactionModel {
        TransactionModel {
            sender: self.sender,
            recipient: self.recipient,
            amount: self.amount,
            fee: self.fee,
            nonce: self.nonce,
            signature: opt_bytes_view(self.signature),
            hash: self.hash,
            timestamp: self.timestamp,
        }
    }
}

/// Copies an optional byte vector.
fn clone_opt_bytes(o: &Option<Vec<u8>>) -> (r: Option<Vec<u8>>)
    ensures
        opt_bytes_view(r) == opt_bytes_view(*o),
{
    match o {
        Some(v) => {
            let mut c: Vec<u8> = Vec::new();
            append_bytes(&mut c, v.as_slice());
            assert(c@ =~= v@);
            Some(c)
        },
        None => None,
    }
}

impl Clone for Transaction {
    fn clone(&self) -> (r: Self)
        ensures
            r@ == self@,
    {
        Transaction {
            sender: self.sender,
            recipient: self.recipient,
            amount: self.amount,
            fee: self.fee,
            nonce: self.nonce,
            signature: clone_opt_bytes(&self.signature),
            hash: self.hash,
            timestamp: self.timestamp,
        }
    }
}

impl Transaction {
    /// A new unsigned transaction; its hash and timestamp are all zero.
    pub fn new(sender: [u8; 32], recipient: [u8; 32], amount: u64, fee: u64, nonce: u64) -> (r: Self)
        ensures
            r.sender == sender,
            r.recipient == recipient,
            r.amount == amount,
            r.fee == fee,
            r.nonce == nonce,
            r.signature is None,
            r.hash@ == zero_bytes32(),
            r.timestamp == 0,
    {
        let t = Transaction {
            sender,
            recipient,
            amount,
            fee,
            nonce,
            signature: None,
            hash: [0u8; 32],
            timestamp: 0,
        };
        assert(t.hash@ =~= zero_bytes32());
        t
    }

    /// Hashes the transaction as it stands (its current `hash` field included)
    /// and stores the result in `hash`.
    pub fn calculate_hash(&mut self) -> (r: [u8; 32])
        ensures
            r@ == crypto::spec_hash(spec_encode_transaction(old(self)@)),
            final(self)@ == (TransactionModel { hash: r, ..old(self)@ }),
    {
        let encoded = encode_transaction(self);
        let h = crypto::hash_encoded(encoded.as_slice());
        self.hash = h;
        h
    }
}

} // verus!
