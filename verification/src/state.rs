//! The chain state: stored blocks, account balances, pending transactions,
//! the height of the chain and the hash of its last block.

use vstd::prelude::*;
use vstd::string::StringExecFns;
use crate::block::{Block, BlockHeader, BlockModel, spec_header_hash, txs_view};
use crate::crypto;
use crate::encoding::{encode_block, spec_encode_block, spec_encode_header, spec_encode_transaction_items, spec_le_u64};
use crate::keymap::{ByteKeyMap, map_total, value_or_zero};
use crate::transaction::{Transaction, TransactionModel, zero_bytes32};

verus! {

/// The reward credited to the miner of every block.
pub const BLOCK_REWARD: u64 = 50;

/// The balance of `a` in `m` (0 for an address never seen).
pub open spec fn balance_of(m: Map<[u8; 32], u64>, a: [u8; 32]) -> u64 {
    value_or_zero(m, a)
}

/// What a transaction costs its sender: amount plus fee.
pub open spec fn tx_cost(t: TransactionModel) -> int {
    t.amount + t.fee
}

/// `m` after crediting `amt` to `a`.
pub open spec fn credit(m: Map<[u8; 32], u64>, a: [u8; 32], amt: u64) -> Map<[u8; 32], u64> {
    m.insert(a, (balance_of(m, a) + amt) as u64)
}

/// The sender's side of `t`: the cost is taken when the sender can pay it;
/// otherwise the balance stays as it is (and is recorded, as 0 if new).
pub open spec fn debit(m: Map<[u8; 32], u64>, t: TransactionModel) -> Map<[u8; 32], u64> {
    let b = balance_of(m, t.sender);
    if b >= tx_cost(t) {
        m.insert(t.sender, (b - tx_cost(t)) as u64)
    } else {
        m.insert(t.sender, b)
    }
}

/// Balances after applying `t`: the sender's side, then the amount credited to
/// the recipient (whether or not the sender could pay).
pub open spec fn apply_tx(m: Map<[u8; 32], u64>, t: TransactionModel) -> Map<[u8; 32], u64> {
    credit(debit(m, t), t.recipient, t.amount)
}

/// Whether applying `t` to `m` stays within `u64`.
pub open spec fn tx_fits(m: Map<[u8; 32], u64>, t: TransactionModel) -> bool {
    &&& tx_cost(t) <= u64::MAX
    &&& balance_of(debit(m, t), t.recipient) + t.amount <= u64::MAX
}

/// Balances after applying the transactions of `ts` in order.
pub open spec fn apply_txs(m: Map<[u8; 32], u64>, ts: Seq<TransactionModel>) -> Map<[u8; 32], u64>
    decreases ts.len(),
{
    if ts.len() == 0 {
        m
    } else {
        apply_tx(apply_txs(m, ts.drop_last()), ts.last())
    }
}

/// Whether applying the transactions of `ts` in order stays within `u64`.
pub open spec fn txs_fit(m: Map<[u8; 32], u64>, ts: Seq<TransactionModel>) -> bool
    decreases ts.len(),
{
    ts.len() == 0 || (txs_fit(m, ts.drop_last()) && tx_fits(apply_txs(m, ts.drop_last()), ts.last()))
}

/// The change in total supply that `t` makes on `m`: the fee is destroyed
/// when the sender pays; the amount is created when it cannot.
pub open spec fn tx_supply_delta(m: Map<[u8; 32], u64>, t: TransactionModel) -> int {
    if balance_of(m, t.sender) >= tx_cost(t) {
        t.amount - tx_cost(t)
    } else {
        t.amount as int
    }
}

/// The change in total supply that the transactions of `ts` make, in order.
pub open spec fn txs_supply_delta(m: Map<[u8; 32], u64>, ts: Seq<TransactionModel>) -> int
    decreases ts.len(),
{
    if ts.len() == 0 {
        0
    } else {
        txs_supply_delta(m, ts.drop_last()) + tx_supply_delta(apply_txs(m, ts.drop_last()), ts.last())
    }
}

/// Balances after a block mined by `miner` carrying `ts`: the reward, then
/// the transactions.
pub open spec fn apply_block_balances(m: Map<[u8; 32], u64>, miner: [u8; 32], ts: Seq<TransactionModel>) -> Map<[u8; 32], u64> {
    apply_txs(credit(m, miner, BLOCK_REWARD), ts)
}

/// Whether applying such a block stays within `u64`.
pub open spec fn block_fits(m: Map<[u8; 32], u64>, miner: [u8; 32], ts: Seq<TransactionModel>) -> bool {
    &&& balance_of(m, miner) + BLOCK_REWARD <= u64::MAX
    &&& txs_fit(credit(m, miner, BLOCK_REWARD), ts)
}

/// The header of the block mined on top of a chain of height `height`
/// ending in `last_hash`.
pub open spec fn is_next_header(h: BlockHeader, last_hash: [u8; 32], height: u64, miner: [u8; 32]) -> bool {
    &&& h.version == 1
    &&& h.prev_hash == last_hash
    &&& h.merkle_root@ == zero_bytes32()
    &&& h.timestamp == 123456789
    &&& h.difficulty == 1
    &&& h.nonce == 0
    &&& h.miner == miner
    &&& h.height == height + 1
}

/// The hash a mined block gets: the hash of the whole block as built, whose
/// hash field then holds the header hash.
pub open spec fn spec_mined_hash(header: BlockHeader, ts: Seq<TransactionModel>) -> Seq<u8> {
    crypto::spec_hash(spec_encode_block(BlockModel { header, transactions: ts, hash: spec_header_hash(header) }))
}

/// The bytes a mined block's hash is taken over: the header's encoding, the
/// number of transactions as a little-endian `u64`, each transaction's
/// encoding in order, and the header hash.
pub open spec fn mined_block_bytes(header: BlockHeader, ts: Seq<TransactionModel>) -> Seq<u8> {
    spec_encode_header(header) + spec_le_u64(ts.len() as u64) + spec_encode_transaction_items(ts)
        + crypto::spec_sha3_256(crypto::spec_mix_rounds(crypto::spec_sha3_256(spec_encode_header(header)), 64))
}

/// A mined block's hash is SHA3-256 of the whole block, the transactions
/// it carries included: its header, the count and encodings of its
/// transactions, and the header's kHeavyHash.
pub proof fn law_mined_hash_covers_transactions(header: BlockHeader, ts: Seq<TransactionModel>)
    ensures
        spec_mined_hash(header, ts) == crypto::spec_sha3_256(mined_block_bytes(header, ts)),
{
    crate::block::law_header_hash_is_k_heavy_hash(header);
    assert(spec_encode_block(BlockModel { header, transactions: ts, hash: spec_header_hash(header) })
        =~= mined_block_bytes(header, ts));
}

/// The bytes hashed for two blocks with the same header differ when the
/// blocks carry different numbers of transactions: the count is encoded
/// right after the 128-byte header.
pub proof fn law_mined_bytes_tell_transaction_count(
    header: BlockHeader,
    ts1: Seq<TransactionModel>,
    ts2: Seq<TransactionModel>,
)
    requires
        ts1.len() <= u64::MAX,
        ts2.len() <= u64::MAX,
        ts1.len() != ts2.len(),
    ensures
        mined_block_bytes(header, ts1) != mined_block_bytes(header, ts2),
{
    crate::encoding::law_header_encoding_len(header);
    vstd::bytes::lemma_auto_spec_u64_to_from_le_bytes();
    let b1 = mined_block_bytes(header, ts1);
    let b2 = mined_block_bytes(header, ts2);
    let c1 = spec_le_u64(ts1.len() as u64);
    let c2 = spec_le_u64(ts2.len() as u64);
    assert(b1.subrange(128, 136) =~= c1);
    assert(b2.subrange(128, 136) =~= c2);
    if b1 == b2 {
        assert(c1 == c2);
        assert(vstd::bytes::spec_u64_from_le_bytes(c1) == ts1.len());
        assert(vstd::bytes::spec_u64_from_le_bytes(c2) == ts2.len());
    }
}

/// The stored blocks, by their views.
pub open spec fn blocks_view(m: Map<[u8; 32], Block>) -> Map<[u8; 32], BlockModel> {
    m.map_values(|b: Block| b@)
}

proof fn lemma_txs_fit_prefix(m: Map<[u8; 32], u64>, ts: Seq<TransactionModel>, k: int)
    requires
        txs_fit(m, ts),
        0 <= k <= ts.len(),
    ensures
        txs_fit(m, ts.take(k)),
    decreases ts.len(),
{
    if k == ts.len() {
        assert(ts.take(k) =~= ts);
    } else {
        lemma_txs_fit_prefix(m, ts.drop_last(), k);
        assert(ts.drop_last().take(k) =~= ts.take(k));
    }
}

/// Applies a block's reward and transactions to `balances`, stopping with
/// `false` as soon as a step would leave `u64`.
fn apply_block_balances_checked(balances: &mut ByteKeyMap<u64>, miner: [u8; 32], txs: &Vec<Transaction>) -> (ok: bool)
    requires
        old(balances).wf(),
    ensures
        final(balances).wf(),
        ok == block_fits(old(balances)@, miner, txs_view(txs@)),
        ok ==> final(balances)@ == apply_block_balances(old(balances)@, miner, txs_view(txs@)),
        ok ==> final(balances).total() == old(balances).total() + BLOCK_REWARD + txs_supply_delta(
            credit(old(balances)@, miner, BLOCK_REWARD),
            txs_view(txs@),
        ),
{
    let ghost ts = txs_view(txs@);
    let mb = balances.get_or_zero(&miner);
    if mb > u64::MAX - BLOCK_REWARD {
        return false;
    }
    balances.set(miner, mb + BLOCK_REWARD);
    let ghost m0 = balances@;
    let ghost t0 = balances.total();
    let n = txs.len();
    let mut i: usize = 0;
    while i < n
        invariant
            n == txs@.len(),
            ts == txs_view(txs@),
            i <= n,
            balances.wf(),
            m0 == credit(old(balances)@, miner, BLOCK_REWARD),
            txs_fit(m0, ts.take(i as int)),
            balances@ == apply_txs(m0, ts.take(i as int)),
            balances.total() == t0 + txs_supply_delta(m0, ts.take(i as int)),
        decreases n - i,
    {
        let tx = &txs[i];
        let ghost t = ts[i as int];
        assert(t == tx@);
        let ghost before = balances@;
        let ghost total_before = balances.total();
        assert(ts.take(i + 1).drop_last() =~= ts.take(i as int));
        assert(ts.take(i + 1).last() == t);
        let cost = match tx.amount.checked_add(tx.fee) {
            Some(c) => c,
            None => {
                proof {
                    if txs_fit(m0, ts) {
                        lemma_txs_fit_prefix(m0, ts, i + 1);
                    }
                }
                return false;
            },
        };
        let sb = balances.get_or_zero(&tx.sender);
        if sb >= cost {
            balances.set(tx.sender, sb - cost);
        } else {
            balances.set(tx.sender, sb);
        }
        assert(balances@ == debit(before, t));
        let rb = balances.get_or_zero(&tx.recipient);
        let nb = match rb.checked_add(tx.amount) {
            Some(v) => v,
            None => {
                proof {
                    if txs_fit(m0, ts) {
                        lemma_txs_fit_prefix(m0, ts, i + 1);
                    }
                }
                return false;
            },
        };
        balances.set(tx.recipient, nb);
        assert(balances.total() == total_before + tx_supply_delta(before, t));
        i = i + 1;
    }
    assert(ts.take(n as int) =~= ts);
    true
}

/// What mining a block by `miner` does: `old` becomes `new` and `b` is the
/// block. The header follows the last block; the block carries every
/// pending transaction and the pool empties; its hash is the hash of the
/// whole encoded block; the reward and the transactions are applied to the
/// balances; the block is stored under its hash, which becomes the last hash,
/// and the height grows by one.
pub open spec fn mined(old: BlockchainState, new: BlockchainState, miner: [u8; 32], b: BlockModel) -> bool {
    &&& new.wf()
    &&& is_next_header(b.header, old.last_hash, old.height, miner)
    &&& b.transactions == txs_view(old.mempool@)
    &&& b.hash == spec_mined_hash(b.header, b.transactions)
    &&& new.mempool@ == Seq::<Transaction>::empty()
    &&& new.height == old.height + 1
    &&& new.last_hash@ == b.hash
    &&& new.balances@ == apply_block_balances(old.balances@, miner, b.transactions)
    &&& new.supply() == old.supply() + BLOCK_REWARD + txs_supply_delta(
        credit(old.balances@, miner, BLOCK_REWARD),
        b.transactions,
    )
    &&& blocks_view(new.blocks@) == blocks_view(old.blocks@).insert(new.last_hash, b)
}

/// Whether every sender in `ts` can pay amount plus fee when its turn comes.
pub open spec fn all_paid(m: Map<[u8; 32], u64>, ts: Seq<TransactionModel>) -> bool
    decreases ts.len(),
{
    ts.len() == 0 || (all_paid(m, ts.drop_last()) && balance_of(apply_txs(m, ts.drop_last()), ts.last().sender)
        >= tx_cost(ts.last()))
}

/// The sum of the fees of `ts`.
pub open spec fn sum_fees(ts: Seq<TransactionModel>) -> int
    decreases ts.len(),
{
    if ts.len() == 0 {
        0
    } else {
        sum_fees(ts.drop_last()) + ts.last().fee
    }
}

/// When every sender can pay, the transactions destroy exactly their fees.
pub proof fn lemma_paid_transactions_burn_fees(m: Map<[u8; 32], u64>, ts: Seq<TransactionModel>)
    requires
        all_paid(m, ts),
    ensures
        txs_supply_delta(m, ts) == -sum_fees(ts),
    decreases ts.len(),
{
    if ts.len() > 0 {
        lemma_paid_transactions_burn_fees(m, ts.drop_last());
    }
}

/// Mining a block whose senders can all pay grows the total supply by the
/// block reward minus the block's fees.
pub proof fn law_supply_after_mining(old: BlockchainState, new: BlockchainState, miner: [u8; 32], b: BlockModel)
    requires
        mined(old, new, miner, b),
        all_paid(credit(old.balances@, miner, BLOCK_REWARD), b.transactions),
    ensures
        new.supply() == old.supply() + BLOCK_REWARD - sum_fees(b.transactions),
{
    lemma_paid_transactions_burn_fees(credit(old.balances@, miner, BLOCK_REWARD), b.transactions);
}

/// A mined block extends the chain: it points at the previous last block,
/// the height grows by one, and the block is stored under its hash, which
/// becomes the last hash.
pub proof fn law_mined_block_is_stored(old: BlockchainState, new: BlockchainState, miner: [u8; 32], b: BlockModel)
    requires
        mined(old, new, miner, b),
    ensures
        b.header.prev_hash == old.last_hash,
        b.header.height == new.height,
        new.height == old.height + 1,
        new.blocks@.contains_key(new.last_hash),
        new.blocks@[new.last_hash]@ == b,
        new.last_hash@ == b.hash,
{
    assert(blocks_view(new.blocks@).contains_key(new.last_hash));
    assert(blocks_view(new.blocks@)[new.last_hash] == b);
}

/// A transfer whose sender can pay and differs from the recipient takes
/// amount plus fee from the sender, gives the amount to the recipient and
/// leaves every other balance as it was.
pub proof fn law_paid_transfer(m: Map<[u8; 32], u64>, t: TransactionModel, other: [u8; 32])
    requires
        t.sender != t.recipient,
        balance_of(m, t.sender) >= tx_cost(t),
        tx_fits(m, t),
        other != t.sender,
        other != t.recipient,
    ensures
        balance_of(apply_tx(m, t), t.sender) == balance_of(m, t.sender) - tx_cost(t),
        balance_of(apply_tx(m, t), t.recipient) == balance_of(m, t.recipient) + t.amount,
        balance_of(apply_tx(m, t), other) == balance_of(m, other),
{
}

/// The sum of the amounts of `ts`.
pub open spec fn sum_amounts(ts: Seq<TransactionModel>) -> int
    decreases ts.len(),
{
    if ts.len() == 0 {
        0
    } else {
        sum_amounts(ts.drop_last()) + ts.last().amount
    }
}

proof fn lemma_sum_amounts_prefix(ts: Seq<TransactionModel>, k: int)
    requires
        0 <= k <= ts.len(),
    ensures
        0 <= sum_amounts(ts.take(k)) <= sum_amounts(ts),
    decreases ts.len() - k,
{
    if k == ts.len() {
        assert(ts.take(k) =~= ts);
        lemma_sum_amounts_nonneg(ts);
    } else {
        lemma_sum_amounts_prefix(ts, k + 1);
        assert(ts.take(k + 1).drop_last() =~= ts.take(k));
        lemma_sum_amounts_nonneg(ts.take(k));
    }
}

proof fn lemma_sum_amounts_nonneg(ts: Seq<TransactionModel>)
    ensures
        sum_amounts(ts) >= 0,
    decreases ts.len(),
{
    if ts.len() > 0 {
        lemma_sum_amounts_nonneg(ts.drop_last());
    }
}

/// No balance grows by more than the amount that a transfer credits; the
/// sender's side never raises a balance.
proof fn lemma_apply_tx_bound(p: Map<[u8; 32], u64>, t: TransactionModel, a: [u8; 32])
    ensures
        balance_of(debit(p, t), a) <= balance_of(p, a),
        tx_cost(t) <= u64::MAX && balance_of(debit(p, t), t.recipient) + t.amount <= u64::MAX ==> balance_of(
            apply_tx(p, t),
            a,
        ) <= balance_of(p, a) + t.amount,
{
}

proof fn lemma_fits_without_overflow(m1: Map<[u8; 32], u64>, ts: Seq<TransactionModel>, bound: int, k: int)
    requires
        forall|a: [u8; 32]| #[trigger] balance_of(m1, a) <= bound,
        bound + sum_amounts(ts) <= u64::MAX,
        forall|i: int| 0 <= i < ts.len() ==> tx_cost(#[trigger] ts[i]) <= u64::MAX,
        0 <= k <= ts.len(),
    ensures
        txs_fit(m1, ts.take(k)),
        forall|a: [u8; 32]| #[trigger] balance_of(apply_txs(m1, ts.take(k)), a) <= bound + sum_amounts(ts.take(k)),
    decreases k,
{
    if k == 0 {
        assert(ts.take(0) =~= Seq::<TransactionModel>::empty());
    } else {
        let j = k - 1;
        lemma_fits_without_overflow(m1, ts, bound, j);
        let pre = ts.take(k);
        assert(pre.drop_last() =~= ts.take(j));
        assert(pre.last() == ts[j]);
        let p = apply_txs(m1, ts.take(j));
        let t = ts[j];
        lemma_sum_amounts_prefix(ts, k);
        assert(sum_amounts(pre) == sum_amounts(ts.take(j)) + t.amount);
        lemma_apply_tx_bound(p, t, t.recipient);
        assert(tx_fits(p, t));
        assert forall|a: [u8; 32]| #[trigger] balance_of(apply_txs(m1, pre), a) <= bound + sum_amounts(pre) by {
            lemma_apply_tx_bound(p, t, a);
        }
    }
}

/// Whether a block can be mined turns on `u64` overflow alone, never on
/// whether its senders can pay: when every balance is at most `bound`, the
/// reward and all the amounts together stay within `u64` above it, and each
/// transfer's amount plus fee fits in a `u64`, the block fits.
pub proof fn law_block_fits_without_overflow(
    m: Map<[u8; 32], u64>,
    miner: [u8; 32],
    ts: Seq<TransactionModel>,
    bound: int,
)
    requires
        forall|a: [u8; 32]| #[trigger] balance_of(m, a) <= bound,
        bound + BLOCK_REWARD + sum_amounts(ts) <= u64::MAX,
        forall|i: int| 0 <= i < ts.len() ==> tx_cost(#[trigger] ts[i]) <= u64::MAX,
    ensures
        block_fits(m, miner, ts),
{
    lemma_sum_amounts_nonneg(ts);
    let m1 = credit(m, miner, BLOCK_REWARD);
    assert forall|a: [u8; 32]| #[trigger] balance_of(m1, a) <= bound + BLOCK_REWARD by {
        assert(balance_of(m, a) <= bound);
    }
    lemma_fits_without_overflow(m1, ts, bound + BLOCK_REWARD, ts.len() as int);
    assert(ts.take(ts.len() as int) =~= ts);
}

/// A transfer can be applied whether or not its sender can pay: it fits as
/// soon as its amount plus fee fits in a `u64` and the recipient's credit
/// stays within `u64`.
pub proof fn law_transfer_fits_whoever_pays(m: Map<[u8; 32], u64>, t: TransactionModel)
    requires
        tx_cost(t) <= u64::MAX,
        balance_of(m, t.recipient) + t.amount <= u64::MAX,
    ensures
        tx_fits(m, t),
{
    lemma_apply_tx_bound(m, t, t.recipient);
}

/// A transfer whose sender cannot pay leaves the sender's balance as it was,
/// and still credits the amount to the recipient.
pub proof fn law_unpaid_transfer(m: Map<[u8; 32], u64>, t: TransactionModel)
    requires
        t.sender != t.recipient,
        balance_of(m, t.sender) < tx_cost(t),
        tx_fits(m, t),
    ensures
        balance_of(apply_tx(m, t), t.sender) == balance_of(m, t.sender),
        balance_of(apply_tx(m, t), t.recipient) == balance_of(m, t.recipient) + t.amount,
{
}

/// Whether `s` is a chain as `BlockchainState::new` makes it.
pub open spec fn is_fresh(s: BlockchainState) -> bool {
    &&& s.wf()
    &&& s.blocks@ == Map::<[u8; 32], Block>::empty()
    &&& s.balances@ == Map::<[u8; 32], u64>::empty()
    &&& s.mempool@ == Seq::<Transaction>::empty()
    &&& s.height == 0
    &&& s.last_hash@ == zero_bytes32()
    &&& s.supply() == 0
}

/// What queuing a transaction does, accepted or refused: the blocks, the
/// balances, the height and the last hash stay, and the pool either stays
/// or gains one transaction at its end.
pub open spec fn queued(old: BlockchainState, new: BlockchainState) -> bool {
    &&& new.wf()
    &&& new.blocks == old.blocks
    &&& new.balances == old.balances
    &&& new.height == old.height
    &&& new.last_hash == old.last_hash
    &&& (new.mempool@ == old.mempool@ || exists|tx: Transaction| new.mempool@ == old.mempool@.push(tx))
}

/// The number of mining steps in `steps` (a step is `Some` of the block it
/// mined, or `None` for a transaction queued or refused).
pub open spec fn count_mined(steps: Seq<Option<BlockModel>>) -> nat
    decreases steps.len(),
{
    if steps.len() == 0 {
        0
    } else {
        count_mined(steps.drop_last()) + if steps.last() is Some { 1nat } else { 0nat }
    }
}

/// Whether one step leads from `old` to `new`: `Some(b)` mines block `b`
/// (for the miner its header names), `None` queues (or refuses) a transaction.
pub open spec fn chain_step(old: BlockchainState, new: BlockchainState, step: Option<BlockModel>) -> bool {
    match step {
        None => queued(old, new),
        Some(b) => mined(old, new, b.header.miner, b),
    }
}

/// Whether `states` is a run of the chain from a fresh state, where step
/// `i` leads from `states[i]` to `states[i + 1]`.
pub open spec fn chain_run(states: Seq<BlockchainState>, steps: Seq<Option<BlockModel>>) -> bool {
    &&& states.len() == steps.len() + 1
    &&& is_fresh(states[0])
    &&& forall|i: int|
        #![trigger steps[i]]
        0 <= i < steps.len() ==> chain_step(states[i], states[i + 1], steps[i])
}

/// Whether a step mined a block with hash `h`.
pub open spec fn mined_with_hash(step: Option<BlockModel>, h: Seq<u8>) -> bool {
    match step {
        Some(b) => b.hash == h,
        None => false,
    }
}

/// What holds after the first `k` steps of a run.
pub open spec fn run_invariant(states: Seq<BlockchainState>, steps: Seq<Option<BlockModel>>, k: int) -> bool {
    let s = states[k];
    &&& s.wf()
    &&& s.height == count_mined(steps.take(k))
    &&& forall|h: [u8; 32]|
        s.blocks@.contains_key(h) <==> exists|i: int|
            0 <= i < k && mined_with_hash(#[trigger] steps[i], h@)
    &&& forall|h: [u8; 32]|
        s.blocks@.contains_key(h) ==> exists|i: int|
            0 <= i < k && #[trigger] steps[i] == Some(s.blocks@[h]@) && s.blocks@[h]@.hash == h@
                && 1 <= s.blocks@[h]@.header.height <= s.height
}

proof fn lemma_run_invariant(states: Seq<BlockchainState>, steps: Seq<Option<BlockModel>>, k: int)
    requires
        chain_run(states, steps),
        0 <= k <= steps.len(),
    ensures
        run_invariant(states, steps, k),
    decreases k,
{
    if k == 0 {
        assert(steps.take(0) =~= Seq::<Option<BlockModel>>::empty());
    } else {
        lemma_run_invariant(states, steps, k - 1);
        let j = k - 1;
        let old = states[j];
        let new = states[k];
        assert(steps.take(k).drop_last() =~= steps.take(j));
        assert(steps.take(k).last() == steps[j]);
        match steps[j] {
            None => {
                assert(queued(old, new));
            },
            Some(b) => {
                assert(mined(old, new, b.header.miner, b));
                assert(blocks_view(new.blocks@) == blocks_view(old.blocks@).insert(new.last_hash, b));
                assert forall|h: [u8; 32]|
                    new.blocks@.contains_key(h) implies exists|i: int|
                        0 <= i < k && #[trigger] steps[i] == Some(new.blocks@[h]@) && new.blocks@[h]@.hash == h@
                            && 1 <= new.blocks@[h]@.header.height <= new.height by {
                    assert(blocks_view(new.blocks@).contains_key(h));
                    if h == new.last_hash {
                        assert(blocks_view(new.blocks@)[h] == b);
                        assert(steps[j] == Some(new.blocks@[h]@));
                    } else {
                        assert(blocks_view(old.blocks@).contains_key(h));
                        assert(blocks_view(new.blocks@)[h] == blocks_view(old.blocks@)[h]);
                        let i = choose|i: int|
                            0 <= i < j && #[trigger] steps[i] == Some(old.blocks@[h]@) && old.blocks@[h]@.hash == h@
                                && 1 <= old.blocks@[h]@.header.height <= old.height;
                        assert(steps[i] == Some(new.blocks@[h]@));
                    }
                }
                assert forall|h: [u8; 32]|
                    new.blocks@.contains_key(h) <==> exists|i: int|
                        0 <= i < k && mined_with_hash(#[trigger] steps[i], h@) by {
                    if new.blocks@.contains_key(h) {
                        let i = choose|i: int|
                            0 <= i < k && #[trigger] steps[i] == Some(new.blocks@[h]@) && new.blocks@[h]@.hash == h@
                                && 1 <= new.blocks@[h]@.header.height <= new.height;
                        assert(mined_with_hash(steps[i], h@));
                    }
                    if exists|i: int| 0 <= i < k && mined_with_hash(#[trigger] steps[i], h@) {
                        let i = choose|i: int| 0 <= i < k && mined_with_hash(#[trigger] steps[i], h@);
                        if i == j {
                            assert(h@ == new.last_hash@);
                            assert(h =~= new.last_hash);
                            assert(blocks_view(new.blocks@).contains_key(h));
                        } else {
                            assert(old.blocks@.contains_key(h));
                            assert(blocks_view(old.blocks@).contains_key(h));
                            assert(blocks_view(new.blocks@).contains_key(h));
                        }
                    }
                }
            },
        }
    }
}

/// Along any run from a fresh chain, the height is the number of blocks
/// mined so far and never goes down.
pub proof fn law_height_counts_mined_blocks(states: Seq<BlockchainState>, steps: Seq<Option<BlockModel>>)
    requires
        chain_run(states, steps),
    ensures
        states.last().height == count_mined(steps),
        forall|i: int, j: int| 0 <= i <= j < states.len() ==> #[trigger] states[i].height <= #[trigger] states[j].height,
{
    lemma_run_invariant(states, steps, steps.len() as int);
    assert(steps.take(steps.len() as int) =~= steps);
    assert forall|i: int, j: int| 0 <= i <= j < states.len() implies #[trigger] states[i].height
        <= #[trigger] states[j].height by {
        lemma_run_invariant(states, steps, i);
        lemma_run_invariant(states, steps, j);
        lemma_count_mined_prefix(steps, i, j);
    }
}

proof fn lemma_count_mined_prefix(steps: Seq<Option<BlockModel>>, i: int, j: int)
    requires
        0 <= i <= j <= steps.len(),
    ensures
        count_mined(steps.take(i)) <= count_mined(steps.take(j)),
    decreases j - i,
{
    if i < j {
        lemma_count_mined_prefix(steps, i, j - 1);
        assert(steps.take(j).drop_last() =~= steps.take(j - 1));
    }
}

/// Along any run from a fresh chain, the stored blocks are exactly the mined
/// ones: a hash is stored when, and only when, some mined block has it, and
/// what is stored under it is a mined block with that hash, of a height from
/// 1 up to the current height.
pub proof fn law_stored_blocks_are_mined(states: Seq<BlockchainState>, steps: Seq<Option<BlockModel>>, h: [u8; 32])
    requires
        chain_run(states, steps),
    ensures
        states.last().blocks@.contains_key(h) <==> exists|i: int|
            0 <= i < steps.len() && mined_with_hash(#[trigger] steps[i], h@),
        states.last().blocks@.contains_key(h) ==> exists|i: int|
            0 <= i < steps.len() && #[trigger] steps[i] == Some(states.last().blocks@[h]@)
                && states.last().blocks@[h]@.hash == h@ && 1 <= states.last().blocks@[h]@.header.height
                <= states.last().height,
{
    lemma_run_invariant(states, steps, steps.len() as int);
}

/// The chain state.
pub struct BlockchainState {
    pub blocks: ByteKeyMap<Block>,
    pub balances: ByteKeyMap<u64>,
    pub mempool: Vec<Transaction>,
    pub height: u64,
    pub last_hash: [u8; 32],
}

impl BlockchainState {
    /// The state's invariant: both maps are well formed.
    pub open spec fn wf(&self) -> bool {
        self.blocks.wf() && self.balances.wf()
    }

    /// The total of all balances.
    pub open spec fn supply(&self) -> int {
        self.balances.total()
    }

    /// The total supply is the sum of the balances map's values.
    pub proof fn lemma_supply_is_sum_of_balances(&self)
        requires
            self.wf(),
        ensures
            self.supply() == map_total(self.balances@),
            self.balances@.dom().finite(),
    {
        self.balances.lemma_total_is_map_total();
    }

    /// Whether `mine_block(miner)` stays within `u64` on this state.
    pub open spec fn can_mine(&self, miner: [u8; 32]) -> bool {
        &&& self.height < u64::MAX
        &&& block_fits(self.balances@, miner, txs_view(self.mempool@))
    }

    /// An empty chain: no blocks, no balances, no pending transactions,
    /// height 0 and an all-zero last hash.
    pub fn new() -> (r: Self)
        ensures
            r.wf(),
            r.blocks@ == Map::<[u8; 32], Block>::empty(),
            r.balances@ == Map::<[u8; 32], u64>::empty(),
            r.mempool@ == Seq::<Transaction>::empty(),
            r.height == 0,
            r.last_hash@ == zero_bytes32(),
            r.supply() == 0,
            is_fresh(r),
    {
        let genesis_hash = [0u8; 32];
        let r = BlockchainState {
            blocks: ByteKeyMap::new(),
            balances: ByteKeyMap::new(),
            mempool: Vec::new(),
            height: 0,
            last_hash: genesis_hash,
        };
        assert(r.last_hash@ =~= zero_bytes32());
        proof {
            r.balances.lemma_total_is_map_total();
            assert(r.balances@.dom() =~= Set::<[u8; 32]>::empty());
        }
        r
    }

    /// The balance of `address` (0 for an unknown address).
    pub fn get_balance(&self, address: &[u8; 32]) -> (r: u64)
        requires
            self.wf(),
        ensures
            r == balance_of(self.balances@, *address),
    {
        self.balances.get_or_zero(address)
    }

    /// Queues `tx` when its sender's balance covers amount plus fee;
    /// otherwise refuses it with "Insufficient funds".
    pub fn add_transaction(&mut self, tx: Transaction) -> (r: Result<(), String>)
        requires
            old(self).wf(),
            tx.amount + tx.fee <= u64::MAX,
        ensures
            final(self).wf(),
            final(self).blocks == old(self).blocks,
            final(self).balances == old(self).balances,
            final(self).height == old(self).height,
            final(self).last_hash == old(self).last_hash,
            r is Ok <==> balance_of(old(self).balances@, tx.sender) >= tx.amount + tx.fee,
            r is Ok ==> final(self).mempool@ == old(self).mempool@.push(tx),
            r matches Err(e) ==> e@ == "Insufficient funds"@ && final(self).mempool@ == old(self).mempool@,
            queued(*old(self), *final(self)),
    {
        let sender_balance = self.get_balance(&tx.sender);
        if sender_balance < tx.amount + tx.fee {
            return Err(String::from_str("Insufficient funds"));
        }
        self.mempool.push(tx);
        Ok(())
    }

    /// Whether `mine_block(miner)` can run on this state without leaving `u64`.
    pub fn can_mine_block(&self, miner: [u8; 32]) -> (r: bool)
        requires
            self.wf(),
        ensures
            r == self.can_mine(miner),
    {
        if self.height == u64::MAX {
            return false;
        }
        let mut scratch = self.balances.duplicate();
        apply_block_balances_checked(&mut scratch, miner, &self.mempool)
    }

    /// Mines a block over all pending transactions, applies it and returns it.
    pub fn mine_block(&mut self, miner: [u8; 32]) -> (r: Block)
        requires
            old(self).wf(),
            old(self).can_mine(miner),
        ensures
            mined(*old(self), *final(self), miner, r@),
            final(self).last_hash == r.hash,
            r.hash@ == crypto::spec_sha3_256(mined_block_bytes(r.header, txs_view(old(self).mempool@))),
    {
        let mut transactions: Vec<Transaction> = Vec::new();
        std::mem::swap(&mut transactions, &mut self.mempool);
        let header = BlockHeader {
            version: 1,
            prev_hash: self.last_hash,
            merkle_root: [0u8; 32],
            timestamp: 123456789,
            difficulty: 1,
            nonce: 0,
            miner,
            height: self.height + 1,
        };
        assert(header.merkle_root@ =~= zero_bytes32());
        let mut block = Block::new(header, transactions);
        let encoded = encode_block(&block);
        block.hash = crypto::hash_encoded(encoded.as_slice());
        self.apply_block(&block);
        proof {
            law_mined_hash_covers_transactions(block.header, block@.transactions);
        }
        block
    }

    /// Applies a mined block: balances, the stored blocks, the last hash and the height.
    fn apply_block(&mut self, block: &Block)
        requires
            old(self).wf(),
            block_fits(old(self).balances@, block.header.miner, block@.transactions),
        ensures
            final(self).wf(),
            final(self).mempool == old(self).mempool,
            final(self).balances@ == apply_block_balances(old(self).balances@, block.header.miner, block@.transactions),
            final(self).supply() == old(self).supply() + BLOCK_REWARD + txs_supply_delta(
                credit(old(self).balances@, block.header.miner, BLOCK_REWARD),
                block@.transactions,
            ),
            blocks_view(final(self).blocks@) == blocks_view(old(self).blocks@).insert(block.hash, block@),
            final(self).last_hash == block.hash,
            final(self).height == block.header.height,
    {
        let ok = apply_block_balances_checked(&mut self.balances, block.header.miner, &block.transactions);
        assert(ok);
        let copy = block.clone();
        let ghost old_blocks = self.blocks@;
        self.blocks.insert(block.hash, copy);
        assert(blocks_view(self.blocks@) =~= blocks_view(old_blocks).insert(block.hash, block@));
        self.last_hash = block.hash;
        self.height = block.header.height;
    }

    /// The height of the chain.
    pub fn current_height(&self) -> (r: u64)
        ensures
            r == self.height,
    {
        self.height
    }

    /// The stored block with hash `hash`, if any.
    pub fn get_block(&self, hash: &[u8; 32]) -> (r: Option<&Block>)
        requires
            self.wf(),
        ensures
            r is Some <==> self.blocks@.contains_key(*hash),
            r matches Some(b) ==> *b == self.blocks@[*hash],
    {
        self.blocks.get(hash)
    }

    /// The sum of all balances; it must fit in a `u64`.
    pub fn total_supply(&self) -> (r: u64)
        requires
            self.supply() <= u64::MAX,
        ensures
            r == self.supply(),
    {
        self.balances.sum()
    }
}

} // verus!
