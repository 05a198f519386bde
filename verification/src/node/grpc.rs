//! The blockchain service: balances, transaction submission, mining, block
//! lookup and chain information, over requests whose addresses and hashes
//! are hexadecimal text.

use vstd::prelude::*;
use vstd::string::StringExecFns;
use crate::block::{Block, BlockModel};
use crate::encoding::{array32, to_array32, spec_encode_transaction_with_hash};
use crate::hexcodec::{hex_decode, hex_encode, spec_hex_decode, spec_hex_encode};
use crate::state::{BlockchainState, balance_of, mined};
use crate::transaction::{Transaction, TransactionModel, opt_bytes_view, zero_bytes32};
use crate::crypto::spec_hash;

verus! {

/// The kind of a failed request.
#[derive(Debug, Clone, Copy, PartialEq, Eq)]
pub enum Code {
    InvalidArgument,
    Internal,
    NotFound,
}

/// A failed request: its kind and a message.
#[derive(Debug, Clone)]
pub struct Status {
    pub code: Code,
    pub message: String,
}

/// Whether `r` failed with kind `code` and message `msg`.
pub open spec fn fails_with<T>(r: Result<T, Status>, code: Code, msg: Seq<char>) -> bool {
    r matches Err(st) && st.code == code && st.message@ == msg
}

fn status(code: Code, msg: &str) -> (r: Status)
    ensures
        r.code == code,
        r.message@ == msg@,
{
    Status { code, message: String::from_str(msg) }
}

/// Decodes hexadecimal text; malformed text is an invalid argument with message `msg`.
fn decode_hex(text: &str, msg: &str) -> (r: Result<Vec<u8>, Status>)
    ensures
        match spec_hex_decode(text@) {
            None => fails_with(r, Code::InvalidArgument, msg@),
            Some(b) => r matches Ok(v) && v@ == b,
        },
{
    match hex_decode(text) {
        Ok(v) => Ok(v),
        Err(_) => Err(status(Code::InvalidArgument, msg)),
    }
}

/// The 32 bytes of `v`; any other length is an invalid argument with message `msg`.
fn bytes32(v: &Vec<u8>, msg: &str) -> (r: Result<[u8; 32], Status>)
    ensures
        v@.len() == 32 ==> r == Ok::<[u8; 32], Status>(array32(v@)),
        r matches Ok(a) ==> a@ == v@,
        v@.len() != 32 ==> fails_with(r, Code::InvalidArgument, msg@),
{
    match to_array32(v) {
        Some(a) => Ok(a),
        None => Err(status(Code::InvalidArgument, msg)),
    }
}

pub struct BalanceRequest {
    pub address: String,
}

pub struct BalanceResponse {
    pub balance: u64,
    pub nonce: u64,
}

pub struct SubmitTransactionRequest {
    pub from: String,
    pub to: String,
    pub amount: u64,
    pub fee: u64,
    pub nonce: u64,
    pub signature: String,
}

pub struct SubmitTransactionResponse {
    pub hash: String,
    pub status: String,
}

pub struct MineBlockRequest {
    pub miner_address: String,
}

pub struct MineBlockResponse {
    pub block_hash: String,
    pub height: u64,
    pub transactions_count: u64,
}

pub struct BlockRequest {
    pub hash: String,
}

pub struct TransactionResponse {
    pub hash: String,
    pub from: String,
    pub to: String,
    pub amount: u64,
    pub fee: u64,
    pub nonce: u64,
    pub signature: String,
    pub timestamp: u64,
}

pub struct BlockResponse {
    pub hash: String,
    pub prev_hash: String,
    pub height: u64,
    pub timestamp: u64,
    pub nonce: u64,
    pub miner: String,
    pub transactions: Vec<TransactionResponse>,
}

pub struct ChainInfoRequest;

pub struct ChainInfoResponse {
    pub height: u64,
    pub total_supply: u64,
    pub peer_count: u64,
    pub is_syncing: bool,
}

/// Whether `r` describes transaction `t`: hashes, addresses and signature as
/// hexadecimal text (no signature reads as empty text), the rest as numbers.
pub open spec fn describes_transaction(r: TransactionResponse, t: TransactionModel) -> bool {
    &&& r.hash@ == spec_hex_encode(t.hash@)
    &&& r.from@ == spec_hex_encode(t.sender@)
    &&& r.to@ == spec_hex_encode(t.recipient@)
    &&& r.amount == t.amount
    &&& r.fee == t.fee
    &&& r.nonce == t.nonce
    &&& r.signature@ == spec_hex_encode(
        match t.signature {
            Some(s) => s,
            None => Seq::empty(),
        },
    )
    &&& r.timestamp == t.timestamp as u64
}

/// Whether `r` describes block `b`.
pub open spec fn describes_block(r: BlockResponse, b: BlockModel) -> bool {
    &&& r.hash@ == spec_hex_encode(b.hash)
    &&& r.prev_hash@ == spec_hex_encode(b.header.prev_hash@)
    &&& r.height == b.header.height
    &&& r.timestamp == b.header.timestamp
    &&& r.nonce == b.header.nonce
    &&& r.miner@ == spec_hex_encode(b.header.miner@)
    &&& r.transactions@.len() == b.transactions.len()
    &&& forall|i: int|
        0 <= i < b.transactions.len() ==> describes_transaction(#[trigger] r.transactions@[i], b.transactions[i])
}

/// The description of a transaction.
pub fn map_tx_to_proto(tx: &Transaction) -> (r: TransactionResponse)
    ensures
        describes_transaction(r, tx@),
{
    let signature = match &tx.signature {
        Some(s) => hex_encode(s.as_slice()),
        None => {
            let empty: Vec<u8> = Vec::new();
            hex_encode(empty.as_slice())
        },
    };
    TransactionResponse {
        hash: hex_encode(&tx.hash),
        from: hex_encode(&tx.sender),
        to: hex_encode(&tx.recipient),
        amount: tx.amount,
        fee: tx.fee,
        nonce: tx.nonce,
        signature,
        timestamp: tx.timestamp as u64,
    }
}

/// The description of a block.
pub fn map_block_to_proto(block: &Block) -> (r: BlockResponse)
    ensures
        describes_block(r, block@),
{
    let mut transactions: Vec<TransactionResponse> = Vec::new();
    let mut i: usize = 0;
    while i < block.transactions.len()
        invariant
            i <= block.transactions@.len(),
            transactions@.len() == i,
            forall|j: int|
                0 <= j < i ==> describes_transaction(#[trigger] transactions@[j], block.transactions@[j]@),
        decreases block.transactions@.len() - i,
    {
        transactions.push(map_tx_to_proto(&block.transactions[i]));
        i = i + 1;
    }
    BlockResponse {
        hash: hex_encode(&block.hash),
        prev_hash: hex_encode(&block.header.prev_hash),
        height: block.header.height,
        timestamp: block.header.timestamp,
        nonce: block.header.nonce,
        miner: hex_encode(&block.header.miner),
        transactions,
    }
}

/// The fields of the transaction a valid submission queues, before it is
/// hashed: unsigned fields from the request, the decoded signature,
/// timestamp 0 and an all-zero hash field.
pub open spec fn submitted_fields(
    from: Seq<u8>,
    to: Seq<u8>,
    req: SubmitTransactionRequest,
    sig: Seq<u8>,
) -> TransactionModel {
    TransactionModel {
        sender: array32(from),
        recipient: array32(to),
        amount: req.amount,
        fee: req.fee,
        nonce: req.nonce,
        signature: Some(sig),
        hash: array32(zero_bytes32()),
        timestamp: 0,
    }
}

/// The digest a valid submission's transaction is hashed to: that of its
/// encoding with an all-zero hash field.
pub open spec fn submitted_digest(from: Seq<u8>, to: Seq<u8>, req: SubmitTransactionRequest, sig: Seq<u8>) -> Seq<u8> {
    spec_hash(spec_encode_transaction_with_hash(submitted_fields(from, to, req, sig), zero_bytes32()))
}

/// The transaction a valid submission queues: its fields, hashed.
pub open spec fn submitted_transaction(
    from: Seq<u8>,
    to: Seq<u8>,
    req: SubmitTransactionRequest,
    sig: Seq<u8>,
) -> TransactionModel {
    TransactionModel { hash: array32(submitted_digest(from, to, req, sig)), ..submitted_fields(from, to, req, sig) }
}

/// Whether the addresses and signature of `req` all decode, the addresses to 32 bytes.
pub open spec fn submission_parses(req: SubmitTransactionRequest) -> bool {
    &&& spec_hex_decode(req.from@) matches Some(f) && f.len() == 32
    &&& spec_hex_decode(req.to@) matches Some(t) && t.len() == 32
    &&& spec_hex_decode(req.signature@) is Some
}

/// Whether hexadecimal text names a 32-byte value.
pub open spec fn is_hex32(text: Seq<char>) -> bool {
    spec_hex_decode(text) matches Some(b) && b.len() == 32
}

/// The 32 bytes that hexadecimal text names, when it names exactly 32.
pub fn parse_hex32(text: &str) -> (r: Option<[u8; 32]>)
    ensures
        r is Some <==> is_hex32(text@),
        r matches Some(a) ==> a == array32(spec_hex_decode(text@).unwrap()),
{
    match hex_decode(text) {
        Ok(v) => to_array32(&v),
        Err(_) => None,
    }
}

/// Whether the addresses and signature of `req` all decode, the addresses
/// to 32 bytes.
pub fn request_parses(req: &SubmitTransactionRequest) -> (r: bool)
    ensures
        r == submission_parses(*req),
{
    parse_hex32(req.from.as_str()).is_some() && parse_hex32(req.to.as_str()).is_some() && hex_decode(
        req.signature.as_str(),
    ).is_ok()
}

/// The service over a chain state.
pub struct GrpcService {
    pub state: BlockchainState,
}

impl GrpcService {
    /// The balance of the hex-encoded address (nonce 0).
    pub fn get_balance(&self, request: BalanceRequest) -> (r: Result<BalanceResponse, Status>)
        requires
            self.state.wf(),
        ensures
            match spec_hex_decode(request.address@) {
                None => fails_with(r, Code::InvalidArgument, "Invalid address format"@),
                Some(b) => if b.len() != 32 {
                    fails_with(r, Code::InvalidArgument, "Address must be 32 bytes"@)
                } else {
                    r matches Ok(resp) && resp.balance == balance_of(self.state.balances@, array32(b))
                        && resp.nonce == 0
                },
            },
    {
        let address_bytes = decode_hex(request.address.as_str(), "Invalid address format")?;
        let address_array = bytes32(&address_bytes, "Address must be 32 bytes")?;
        let balance = self.state.get_balance(&address_array);
        Ok(BalanceResponse { balance, nonce: 0 })
    }

    /// Builds, hashes and queues the requested transaction; the response
    /// carries its hash in hexadecimal and the status "Pending". Malformed
    /// addresses or signature are invalid arguments; a sender who cannot
    /// cover amount plus fee gets an internal error "Insufficient funds".
    pub fn submit_transaction(&mut self, request: SubmitTransactionRequest) -> (r: Result<SubmitTransactionResponse, Status>)
        requires
            old(self).state.wf(),
            submission_parses(request) ==> request.amount + request.fee <= u64::MAX,
        ensures
            final(self).state.wf(),
            final(self).state.blocks == old(self).state.blocks,
            final(self).state.balances == old(self).state.balances,
            final(self).state.height == old(self).state.height,
            final(self).state.last_hash == old(self).state.last_hash,
            r is Err ==> final(self).state.mempool@ == old(self).state.mempool@,
            match (spec_hex_decode(request.from@), spec_hex_decode(request.to@), spec_hex_decode(request.signature@)) {
                (None, _, _) => fails_with(r, Code::InvalidArgument, "Invalid sender"@),
                (Some(_), None, _) => fails_with(r, Code::InvalidArgument, "Invalid recipient"@),
                (Some(_), Some(_), None) => fails_with(r, Code::InvalidArgument, "Invalid signature"@),
                (Some(f), Some(t), Some(sig)) => if f.len() != 32 {
                    fails_with(r, Code::InvalidArgument, "Invalid sender len"@)
                } else if t.len() != 32 {
                    fails_with(r, Code::InvalidArgument, "Invalid recipient len"@)
                } else if balance_of(old(self).state.balances@, array32(f)) < request.amount + request.fee {
                    fails_with(r, Code::Internal, "Insufficient funds"@)
                } else {
                    let tx = submitted_transaction(f, t, request, sig);
                    &&& r matches Ok(resp) && resp.hash@ == spec_hex_encode(tx.hash@) && resp.status@ == "Pending"@
                    &&& final(self).state.mempool@.len() == old(self).state.mempool@.len() + 1
                    &&& final(self).state.mempool@.drop_last() == old(self).state.mempool@
                    &&& final(self).state.mempool@.last()@ == tx
                    &&& final(self).state.mempool@.last().hash@ == submitted_digest(f, t, request, sig)
                    &&& submitted_digest(f, t, request, sig).len() == 32
                    &&& final(self).state.mempool@.last()@.sender@ == f
                    &&& final(self).state.mempool@.last()@.recipient@ == t
                    &&& final(self).state.mempool@.last()@.amount == request.amount
                    &&& final(self).state.mempool@.last()@.fee == request.fee
                    &&& final(self).state.mempool@.last()@.nonce == request.nonce
                    &&& final(self).state.mempool@.last()@.signature == Some(sig)
                    &&& final(self).state.mempool@.last()@.timestamp == 0
                    &&& final(self).state.mempool@.last().hash@ == spec_hash(
                        spec_encode_transaction_with_hash(final(self).state.mempool@.last()@, zero_bytes32()),
                    )
                    &&& r matches Ok(resp) && resp.hash@ == spec_hex_encode(final(self).state.mempool@.last().hash@)
                },
            },
    {
        let from = decode_hex(request.from.as_str(), "Invalid sender")?;
        let to = decode_hex(request.to.as_str(), "Invalid recipient")?;
        let signature = decode_hex(request.signature.as_str(), "Invalid signature")?;
        let from_arr = bytes32(&from, "Invalid sender len")?;
        let to_arr = bytes32(&to, "Invalid recipient len")?;
        let mut tx = Transaction::new(from_arr, to_arr, request.amount, request.fee, request.nonce);
        tx.signature = Some(signature);
        let ghost unhashed = tx@;
        assert(tx@.hash@ == zero_bytes32());
        assert(tx@.hash == array32(zero_bytes32()));
        tx.calculate_hash();
        assert(spec_encode_transaction_with_hash(unhashed, unhashed.hash@) == spec_encode_transaction_with_hash(unhashed, zero_bytes32()));
        assert(tx@.hash == array32(tx@.hash@));
        let tx_hash = hex_encode(&tx.hash);
        let ghost queued = tx@;
        let ghost qtx = tx;
        assert(tx@.sender@ == from@ && tx@.recipient@ == to@);
        assert(spec_encode_transaction_with_hash(tx@, zero_bytes32()) == spec_encode_transaction_with_hash(
            unhashed,
            zero_bytes32(),
        ));
        match self.state.add_transaction(tx) {
            Ok(()) => {
                assert(self.state.mempool@.drop_last() =~= old(self).state.mempool@);
                assert(self.state.mempool@.last() == qtx);
                Ok(SubmitTransactionResponse { hash: tx_hash, status: String::from_str("Pending") })
            },
            Err(e) => Err(Status { code: Code::Internal, message: e }),
        }
    }

    /// Mines a block for the hex-encoded miner address and reports its hash
    /// in hexadecimal, its height and how many transactions it carries.
    pub fn mine_block(&mut self, request: MineBlockRequest) -> (r: Result<MineBlockResponse, Status>)
        requires
            old(self).state.wf(),
            is_hex32(request.miner_address@) ==> old(self).state.can_mine(
                array32(spec_hex_decode(request.miner_address@).unwrap()),
            ),
        ensures
            final(self).state.wf(),
            match spec_hex_decode(request.miner_address@) {
                None => fails_with(r, Code::InvalidArgument, "Invalid miner address"@)
                    && final(self).state == old(self).state,
                Some(b) => if b.len() != 32 {
                    fails_with(r, Code::InvalidArgument, "Invalid miner len"@) && final(self).state == old(self).state
                } else {
                    exists|blk: BlockModel|
                        #[trigger] mined(old(self).state, final(self).state, array32(b), blk) && (r matches Ok(resp)
                            && resp.block_hash@ == spec_hex_encode(blk.hash) && resp.height == blk.header.height
                            && resp.transactions_count == blk.transactions.len())
                },
            },
    {
        let miner = decode_hex(request.miner_address.as_str(), "Invalid miner address")?;
        let miner_arr = bytes32(&miner, "Invalid miner len")?;
        let block = self.state.mine_block(miner_arr);
        assert(mined(old(self).state, self.state, miner_arr, block@));
        Ok(MineBlockResponse {
            block_hash: hex_encode(&block.hash),
            height: block.header.height,
            transactions_count: block.transactions.len() as u64,
        })
    }

    /// The block with the hex-encoded hash, described; an unknown hash is
    /// "Block not found".
    pub fn get_block(&self, request: BlockRequest) -> (r: Result<BlockResponse, Status>)
        requires
            self.state.wf(),
        ensures
            match spec_hex_decode(request.hash@) {
                None => fails_with(r, Code::InvalidArgument, "Invalid hash"@),
                Some(b) => if b.len() != 32 {
                    fails_with(r, Code::InvalidArgument, "Invalid hash len"@)
                } else if !self.state.blocks@.contains_key(array32(b)) {
                    fails_with(r, Code::NotFound, "Block not found"@)
                } else {
                    r matches Ok(resp) && describes_block(resp, self.state.blocks@[array32(b)]@)
                },
            },
    {
        let hash = decode_hex(request.hash.as_str(), "Invalid hash")?;
        let hash_arr = bytes32(&hash, "Invalid hash len")?;
        match self.state.get_block(&hash_arr) {
            Some(block) => Ok(map_block_to_proto(block)),
            None => Err(status(Code::NotFound, "Block not found")),
        }
    }

    /// The chain's height; the supply is reported as the fixed 100000000,
    /// with no peers and no sync in progress.
    pub fn get_chain_info(&self, request: ChainInfoRequest) -> (r: Result<ChainInfoResponse, Status>)
        ensures
            r matches Ok(info) && info.height == self.state.height && info.total_supply == 100_000_000
                && info.peer_count == 0 && !info.is_syncing,
    {
        Ok(ChainInfoResponse {
            height: self.state.current_height(),
            total_supply: 100_000_000,
            peer_count: 0,
            is_syncing: false,
        })
    }
}

} // verus!
