//! Pending transactions indexed by their hash strings.

use vstd::prelude::*;
use vstd::string::StringExecFns;
use crate::keymap::{
    entries_to_map, keys_distinct, lemma_entries_index, lemma_entries_key, lemma_entries_len,
    lemma_entries_push, lemma_entries_remove,
};
use crate::transaction::{Transaction, TransactionModel};

verus! {

/// The mathematical entries of a list of (hash, transaction) pairs.
pub open spec fn pool_entries(s: Seq<(String, Transaction)>) -> Seq<(Seq<char>, TransactionModel)> {
    s.map_values(|e: (String, Transaction)| (e.0@, e.1@))
}

/// The map that a list of (hash, transaction) pairs describes.
pub open spec fn pool_map(s: Seq<(String, Transaction)>) -> Map<Seq<char>, TransactionModel> {
    entries_to_map(pool_entries(s))
}

/// A transaction added under a new hash is found under it.
pub proof fn law_get_after_add(m: Map<Seq<char>, TransactionModel>, k: Seq<char>, t: TransactionModel)
    requires
        !m.contains_key(k),
    ensures
        m.insert(k, t).contains_key(k),
        m.insert(k, t)[k] == t,
{
}

/// Removing what was just added under a new hash gives the pool back.
pub proof fn law_remove_after_add(m: Map<Seq<char>, TransactionModel>, k: Seq<char>, t: TransactionModel)
    requires
        !m.contains_key(k),
    ensures
        m.insert(k, t).remove(k) == m,
{
    assert(m.insert(k, t).remove(k) =~= m);
}

/// Adding under a new hash grows the pool by one.
pub proof fn law_len_after_add(m: Map<Seq<char>, TransactionModel>, k: Seq<char>, t: TransactionModel)
    requires
        m.dom().finite(),
        !m.contains_key(k),
    ensures
        m.insert(k, t).len() == m.len() + 1,
{
}

/// One call that changes a pool: `add` of a transaction under a hash,
/// `remove` of a hash, or `clear`.
pub enum PoolOp {
    Add(Seq<char>, TransactionModel),
    Remove(Seq<char>),
    Clear,
}

/// The pool after `op` on a pool `m`: an `add` under a hash already present
/// leaves it as it was.
pub open spec fn apply_pool_op(m: Map<Seq<char>, TransactionModel>, op: PoolOp) -> Map<Seq<char>, TransactionModel> {
    match op {
        PoolOp::Add(k, t) => if m.contains_key(k) { m } else { m.insert(k, t) },
        PoolOp::Remove(k) => m.remove(k),
        PoolOp::Clear => Map::empty(),
    }
}

/// Whether, among the first `n` calls, call `i` stored a transaction under
/// `k`: it is an `add` under `k` made while `k` was absent, and no later call
/// before `n` removed `k` or cleared the pool.
pub open spec fn stored_by(
    views: Seq<Map<Seq<char>, TransactionModel>>,
    ops: Seq<PoolOp>,
    n: int,
    i: int,
    k: Seq<char>,
) -> bool {
    &&& 0 <= i < n
    &&& ops[i] matches PoolOp::Add(k2, _) && k2 == k
    &&& !views[i].contains_key(k)
    &&& forall|j: int| i < j < n ==> #[trigger] ops[j] != PoolOp::Remove(k) && !(ops[j] is Clear)
}

/// Whether `views` are the successive contents of a pool made by `new`, call
/// `i` leading from `views[i]` to `views[i + 1]`.
pub open spec fn pool_history(views: Seq<Map<Seq<char>, TransactionModel>>, ops: Seq<PoolOp>) -> bool {
    &&& views.len() == ops.len() + 1
    &&& views[0] == Map::<Seq<char>, TransactionModel>::empty()
    &&& forall|i: int| #![trigger ops[i]] 0 <= i < ops.len() ==> views[i + 1] == apply_pool_op(views[i], ops[i])
}

proof fn lemma_pool_history(views: Seq<Map<Seq<char>, TransactionModel>>, ops: Seq<PoolOp>, k: Seq<char>, n: int)
    requires
        pool_history(views, ops),
        0 <= n <= ops.len(),
    ensures
        views[n].contains_key(k) <==> exists|i: int| #[trigger] stored_by(views, ops, n, i, k),
        forall|i: int| #[trigger] stored_by(views, ops, n, i, k) ==> views[n][k] == ops[i]->Add_1,
    decreases n,
{
    if n > 0 {
        let p = n - 1;
        lemma_pool_history(views, ops, k, p);
        assert(views[n] == apply_pool_op(views[p], ops[p]));
        let keeps = ops[p] != PoolOp::Remove(k) && !(ops[p] is Clear);
        assert forall|i: int| 0 <= i < p && keeps implies #[trigger] stored_by(views, ops, n, i, k) == stored_by(
            views,
            ops,
            p,
            i,
            k,
        ) by {
            if stored_by(views, ops, p, i, k) {
                assert forall|j: int| i < j < n implies #[trigger] ops[j] != PoolOp::Remove(k) && !(ops[j] is Clear) by {
                    if j < p {
                        assert(ops[j] != PoolOp::Remove(k) && !(ops[j] is Clear));
                    }
                }
            }
        }
        assert forall|i: int| 0 <= i < p && !keeps implies !#[trigger] stored_by(views, ops, n, i, k) by {
            assert(!(ops[p] != PoolOp::Remove(k) && !(ops[p] is Clear)));
        }
        match ops[p] {
            PoolOp::Add(k2, t) => {
                if k2 == k && !views[p].contains_key(k) {
                    assert(stored_by(views, ops, n, p, k));
                    assert forall|i: int| #[trigger] stored_by(views, ops, n, i, k) implies views[n][k]
                        == ops[i]->Add_1 by {
                        if i < p {
                            assert(stored_by(views, ops, p, i, k));
                        }
                    }
                } else {
                    assert(!stored_by(views, ops, n, p, k));
                    assert(views[n].contains_key(k) == views[p].contains_key(k));
                    if views[p].contains_key(k) {
                        assert(views[n][k] == views[p][k]);
                    }
                    if exists|i: int| #[trigger] stored_by(views, ops, n, i, k) {
                        let i = choose|i: int| #[trigger] stored_by(views, ops, n, i, k);
                        assert(stored_by(views, ops, p, i, k));
                    }
                    if exists|i: int| #[trigger] stored_by(views, ops, p, i, k) {
                        let i = choose|i: int| #[trigger] stored_by(views, ops, p, i, k);
                        assert(stored_by(views, ops, n, i, k));
                    }
                }
            },
            PoolOp::Remove(k2) => {
                assert(!stored_by(views, ops, n, p, k));
                if k2 != k {
                    assert(views[n].contains_key(k) == views[p].contains_key(k));
                    if views[p].contains_key(k) {
                        assert(views[n][k] == views[p][k]);
                    }
                    if exists|i: int| #[trigger] stored_by(views, ops, n, i, k) {
                        let i = choose|i: int| #[trigger] stored_by(views, ops, n, i, k);
                        assert(stored_by(views, ops, p, i, k));
                    }
                    if exists|i: int| #[trigger] stored_by(views, ops, p, i, k) {
                        let i = choose|i: int| #[trigger] stored_by(views, ops, p, i, k);
                        assert(stored_by(views, ops, n, i, k));
                    }
                }
            },
            PoolOp::Clear => {
                assert(!stored_by(views, ops, n, p, k));
            },
        }
    }
}

/// Along any history of a pool from `new`, what the pool holds under a hash
/// is the transaction that a successful `add` stored under it, not undone
/// since by a `remove` of that hash or a `clear`; with no such `add`, the
/// hash is absent. The contents are those that replaying the calls gives.
pub proof fn law_pool_reflects_history(
    views: Seq<Map<Seq<char>, TransactionModel>>,
    ops: Seq<PoolOp>,
    k: Seq<char>,
)
    requires
        pool_history(views, ops),
    ensures
        views.last().contains_key(k) <==> exists|i: int| #[trigger] stored_by(views, ops, ops.len() as int, i, k),
        forall|i: int| #[trigger] stored_by(views, ops, ops.len() as int, i, k) ==> views.last()[k] == ops[i]->Add_1,
{
    lemma_pool_history(views, ops, k, ops.len() as int);
}

/// Transactions waiting to be mined, each under a distinct hash string.
pub struct Mempool {
    transactions: Vec<(String, Transaction)>,
}

impl View for Mempool {
    type V = Map<Seq<char>, TransactionModel>;

    closed spec fn view(&self) -> Map<Seq<char>, TransactionModel> {
        pool_map(self.transactions@)
    }
}

impl Mempool {
    /// The pool's invariant: no hash is stored twice.
    pub closed spec fn wf(&self) -> bool {
        keys_distinct(pool_entries(self.transactions@))
    }

    /// A well-formed pool holds finitely many transactions.
    pub proof fn lemma_finite(&self)
        requires
            self.wf(),
        ensures
            self@.dom().finite(),
    {
        lemma_entries_len(pool_entries(self.transactions@));
    }

    /// An empty pool.
    pub fn new() -> (r: Self)
        ensures
            r.wf(),
            r@ == Map::<Seq<char>, TransactionModel>::empty(),
            r@.dom().finite(),
    {
        let r = Mempool { transactions: Vec::new() };
        assert(pool_entries(r.transactions@) =~= Seq::empty());
        proof {
            r.lemma_finite();
        }
        r
    }

    /// The position of the entry stored under `key`, if any.
    fn find(&self, key: &String) -> (r: Option<usize>)
        requires
            self.wf(),
        ensures
            match r {
                Some(i) => i < self.transactions@.len() && self.transactions@[i as int].0@ == key@,
                None => !self@.contains_key(key@),
            },
    {
        let mut i: usize = 0;
        while i < self.transactions.len()
            invariant
                i <= self.transactions@.len(),
                forall|j: int| 0 <= j < i ==> self.transactions@[j].0@ != key@,
            decreases self.transactions@.len() - i,
        {
            if self.transactions[i].0 == *key {
                return Some(i);
            }
            i = i + 1;
        }
        proof {
            if self@.contains_key(key@) {
                let j = lemma_entries_key(pool_entries(self.transactions@), key@);
                assert(self.transactions@[j].0@ == key@);
            }
        }
        None
    }

    /// Adds `tx` under `tx_hash`; a hash already present is refused with
    /// "Transaction already in mempool" and the pool is left as it was.
    pub fn add(&mut self, tx_hash: String, tx: Transaction) -> (r: Result<(), String>)
        requires
            old(self).wf(),
        ensures
            final(self).wf(),
            final(self)@.dom().finite(),
            r is Ok <==> !old(self)@.contains_key(tx_hash@),
            r is Ok ==> final(self)@ == old(self)@.insert(tx_hash@, tx@),
            r is Ok ==> final(self)@.len() == old(self)@.len() + 1,
            final(self)@ == apply_pool_op(old(self)@, PoolOp::Add(tx_hash@, tx@)),
            r matches Err(e) ==> e@ == "Transaction already in mempool"@ && final(self)@ == old(self)@,
    {
        if self.find(&tx_hash).is_some() {
            proof {
                let i = self.lemma_position_in_map(tx_hash@);
            }
            proof {
                self.lemma_finite();
            }
            return Err(String::from_str("Transaction already in mempool"));
        }
        proof {
            self.lemma_finite();
            lemma_entries_push(pool_entries(self.transactions@), tx_hash@, tx@);
        }
        let ghost key = tx_hash@;
        let ghost tv = tx@;
        self.transactions.push((tx_hash, tx));
        assert(pool_entries(self.transactions@) =~= pool_entries(old(self).transactions@).push((key, tv)));
        proof {
            self.lemma_finite();
        }
        Ok(())
    }

    /// A key found at a position is in the map.
    proof fn lemma_position_in_map(&self, key: Seq<char>) -> (i: int)
        requires
            self.wf(),
            exists|j: int| 0 <= j < self.transactions@.len() && self.transactions@[j].0@ == key,
        ensures
            self@.contains_key(key),
    {
        let j = choose|j: int| 0 <= j < self.transactions@.len() && self.transactions@[j].0@ == key;
        lemma_entries_index(pool_entries(self.transactions@), j);
        j
    }

    /// The transaction stored under `tx_hash`, if any.
    pub fn get(&self, tx_hash: &str) -> (r: Option<&Transaction>)
        requires
            self.wf(),
        ensures
            r is Some <==> self@.contains_key(tx_hash@),
            r matches Some(t) ==> t@ == self@[tx_hash@],
    {
        let key = tx_hash.to_owned();
        match self.find(&key) {
            Some(i) => {
                proof {
                    lemma_entries_index(pool_entries(self.transactions@), i as int);
                }
                Some(&self.transactions[i].1)
            },
            None => None,
        }
    }

    /// Removes and returns the transaction stored under `tx_hash`, if any.
    pub fn remove(&mut self, tx_hash: &str) -> (r: Option<Transaction>)
        requires
            old(self).wf(),
        ensures
            final(self).wf(),
            final(self)@.dom().finite(),
            final(self)@ == old(self)@.remove(tx_hash@),
            r is Some <==> old(self)@.contains_key(tx_hash@),
            r matches Some(t) ==> t@ == old(self)@[tx_hash@],
            r is Some ==> final(self)@.len() == old(self)@.len() - 1,
            r is None ==> final(self)@ == old(self)@,
            final(self)@ == apply_pool_op(old(self)@, PoolOp::Remove(tx_hash@)),
    {
        let key = tx_hash.to_owned();
        match self.find(&key) {
            Some(i) => {
                proof {
                    self.lemma_finite();
                    lemma_entries_index(pool_entries(self.transactions@), i as int);
                    lemma_entries_remove(pool_entries(self.transactions@), i as int);
                }
                let (_k, tx) = self.transactions.remove(i);
                assert(pool_entries(self.transactions@) =~= pool_entries(old(self).transactions@).remove(i as int));
                proof {
                    self.lemma_finite();
                }
                Some(tx)
            },
            None => {
                assert(old(self)@.remove(tx_hash@) =~= old(self)@);
                proof {
                    self.lemma_finite();
                }
                None
            },
        }
    }

    /// The number of stored transactions.
    pub fn len(&self) -> (r: usize)
        requires
            self.wf(),
        ensures
            r == self@.len(),
            self@.dom().finite(),
    {
        proof {
            lemma_entries_len(pool_entries(self.transactions@));
        }
        self.transactions.len()
    }

    /// Whether the pool holds no transaction.
    pub fn is_empty(&self) -> (r: bool)
        requires
            self.wf(),
        ensures
            r == (self@.len() == 0),
    {
        proof {
            lemma_entries_len(pool_entries(self.transactions@));
        }
        self.transactions.len() == 0
    }

    /// Copies of all (hash, transaction) pairs, each hash once, in no
    /// particular order.
    pub fn get_all(&self) -> (r: Vec<(String, Transaction)>)
        requires
            self.wf(),
        ensures
            keys_distinct(pool_entries(r@)),
            pool_map(r@) == self@,
    {
        let mut out: Vec<(String, Transaction)> = Vec::new();
        let mut i: usize = 0;
        while i < self.transactions.len()
            invariant
                i <= self.transactions@.len(),
                out@.len() == i,
                forall|j: int|
                    0 <= j < i ==> (#[trigger] out@[j]).0@ == self.transactions@[j].0@ && out@[j].1@
                        == self.transactions@[j].1@,
            decreases self.transactions@.len() - i,
        {
            let k = self.transactions[i].0.clone();
            let t = self.transactions[i].1.clone();
            out.push((k, t));
            i = i + 1;
        }
        assert(pool_entries(out@) =~= pool_entries(self.transactions@));
        out
    }

    /// Removes every transaction.
    pub fn clear(&mut self)
        ensures
            final(self).wf(),
            final(self)@ == Map::<Seq<char>, TransactionModel>::empty(),
            final(self)@.dom().finite(),
            final(self)@ == apply_pool_op(old(self)@, PoolOp::Clear),
    {
        self.transactions.clear();
        assert(pool_entries(self.transactions@) =~= Seq::empty());
        proof {
            self.lemma_finite();
        }
    }
}

} // verus!
