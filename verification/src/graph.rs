//! The transaction-graph update handed back to the caller, and the
//! process-wide transaction cache that avoids re-fetching transactions.

use vstd::prelude::*;

use crate::types::{ConfirmationTimeHeightAnchor, Hash32, OutPoint, Tx, TxOut};

verus! {

/// An incremental update to the caller's transaction graph: transactions by
/// id, `(anchor, txid)` confirmation evidence, and spent outputs by
/// outpoint. All three insertions are idempotent.
pub struct TxGraphUpdate {
    pub txs: Vec<Tx>,
    pub anchors: Vec<(ConfirmationTimeHeightAnchor, Hash32)>,
    pub txouts: Vec<(OutPoint, TxOut)>,
}

impl TxGraphUpdate {
    /// Whether a transaction with this id is in the update.
    pub open spec fn contains_txid(self, txid: Hash32) -> bool {
        exists|i: int| 0 <= i < self.txs@.len() && self.txs@[i].txid == txid
    }

    /// Whether this exact `(anchor, txid)` pair is in the update.
    pub open spec fn has_anchor(self, anchor: ConfirmationTimeHeightAnchor, txid: Hash32) -> bool {
        exists|i: int|
            0 <= i < self.anchors@.len() && self.anchors@[i] == (anchor, txid)
    }

    /// Whether a spent output is recorded for this outpoint.
    pub open spec fn has_txout(self, outpoint: OutPoint) -> bool {
        exists|i: int| 0 <= i < self.txouts@.len() && self.txouts@[i].0 == outpoint
    }

    /// Each transaction id, anchor pair and outpoint occurs at most once.
    pub open spec fn wf(self) -> bool {
        &&& forall|i: int, j: int|
            0 <= i < j < self.txs@.len() ==> self.txs@[i].txid != self.txs@[j].txid
        &&& forall|i: int, j: int|
            0 <= i < j < self.anchors@.len() ==> self.anchors@[i] != self.anchors@[j]
        &&& forall|i: int, j: int|
            0 <= i < j < self.txouts@.len() ==> self.txouts@[i].0 != self.txouts@[j].0
    }

    /// An empty update.
    pub fn new() -> (r: TxGraphUpdate)
        ensures
            r.wf(),
            r.txs@ == Seq::<Tx>::empty(),
            r.anchors@ == Seq::<(ConfirmationTimeHeightAnchor, Hash32)>::empty(),
            r.txouts@ == Seq::<(OutPoint, TxOut)>::empty(),
    {
        TxGraphUpdate { txs: Vec::new(), anchors: Vec::new(), txouts: Vec::new() }
    }

    /// Insert a transaction; a transaction already present under the same id
    /// is kept (a transaction is immutable given its id).
    pub fn insert_tx(&mut self, tx: Tx) -> (inserted: bool)
        requires
            old(self).wf(),
        ensures
            final(self).wf(),
            final(self).contains_txid(tx.txid),
            inserted == !old(self).contains_txid(tx.txid),
            inserted ==> final(self).txs@ == old(self).txs@.push(tx),
            !inserted ==> final(self).txs@ == old(self).txs@ && old(self).contains_txid(tx.txid),
            final(self).anchors@ == old(self).anchors@,
            final(self).txouts@ == old(self).txouts@,
    {
        let n = self.txs.len();
        let mut i: usize = 0;
        while i < n
            invariant
                *self == *old(self),
                old(self).wf(),
                n == self.txs@.len(),
                i <= n,
                forall|j: int| 0 <= j < i ==> self.txs@[j].txid != tx.txid,
            decreases n - i,
        {
            if self.txs[i].txid == tx.txid {
                return false;
            }
            i += 1;
        }
        let ghost pre = self.txs@;
        self.txs.push(tx);
        proof {
            assert(self.txs@[pre.len() as int].txid == tx.txid);
        }
        true
    }

    /// Insert confirmation evidence for a transaction; an identical pair
    /// already present is kept once.
    pub fn insert_anchor(
        &mut self,
        anchor: ConfirmationTimeHeightAnchor,
        txid: Hash32,
    ) -> (inserted: bool)
        requires
            old(self).wf(),
        ensures
            final(self).wf(),
            final(self).has_anchor(anchor, txid),
            inserted == !old(self).has_anchor(anchor, txid),
            inserted ==> final(self).anchors@ == old(self).anchors@.push((anchor, txid)),
            !inserted ==> final(self).anchors@ == old(self).anchors@ && old(self).has_anchor(
                anchor,
                txid,
            ),
            final(self).txs@ == old(self).txs@,
            final(self).txouts@ == old(self).txouts@,
    {
        let n = self.anchors.len();
        let mut i: usize = 0;
        while i < n
            invariant
                *self == *old(self),
                old(self).wf(),
                n == self.anchors@.len(),
                i <= n,
                forall|j: int| 0 <= j < i ==> self.anchors@[j] != (anchor, txid),
            decreases n - i,
        {
            let e = &self.anchors[i];
            if e.0 == anchor && e.1 == txid {
                return false;
            }
            i += 1;
        }
        let ghost pre = self.anchors@;
        self.anchors.push((anchor, txid));
        proof {
            assert(self.anchors@[pre.len() as int] == (anchor, txid));
        }
        true
    }

    /// Record the output a discovered transaction spends; an outpoint already
    /// recorded is kept (the same outpoint always names the same output).
    pub fn insert_txout(&mut self, outpoint: OutPoint, txout: TxOut) -> (inserted: bool)
        requires
            old(self).wf(),
        ensures
            final(self).wf(),
            final(self).has_txout(outpoint),
            inserted == !old(self).has_txout(outpoint),
            inserted ==> final(self).txouts@ == old(self).txouts@.push((outpoint, txout)),
            !inserted ==> final(self).txouts@ == old(self).txouts@ && old(self).has_txout(
                outpoint,
            ),
            final(self).txs@ == old(self).txs@,
            final(self).anchors@ == old(self).anchors@,
    {
        let n = self.txouts.len();
        let mut i: usize = 0;
        while i < n
            invariant
                *self == *old(self),
                old(self).wf(),
                n == self.txouts@.len(),
                i <= n,
                forall|j: int| 0 <= j < i ==> self.txouts@[j].0 != outpoint,
            decreases n - i,
        {
            if self.txouts[i].0 == outpoint {
                return false;
            }
            i += 1;
        }
        let ghost pre = self.txouts@;
        self.txouts.push((outpoint, txout));
        proof {
            assert(self.txouts@[pre.len() as int].0 == outpoint);
        }
        true
    }

    /// Every outpoint spent by some transaction of the update. Used to
    /// hydrate previous outputs for fee computation.
    pub fn all_input_outpoints(&self) -> (r: Vec<OutPoint>)
        ensures
            forall|op: OutPoint|
                r@.contains(op) <==> exists|i: int|
                    0 <= i < self.txs@.len() && self.txs@[i].inputs@.contains(op),
    {
        let mut r: Vec<OutPoint> = Vec::new();
        let n = self.txs.len();
        let mut i: usize = 0;
        while i < n
            invariant
                n == self.txs@.len(),
                i <= n,
                forall|op: OutPoint|
                    r@.contains(op) <==> exists|j: int|
                        0 <= j < i && self.txs@[j].inputs@.contains(op),
            decreases n - i,
        {
            let m = self.txs[i].inputs.len();
            let mut k: usize = 0;
            while k < m
                invariant
                    n == self.txs@.len(),
                    i < n,
                    m == self.txs@[i as int].inputs@.len(),
                    k <= m,
                    forall|op: OutPoint|
                        r@.contains(op) <==> (exists|j: int|
                            0 <= j < i && self.txs@[j].inputs@.contains(op)) || (exists|l: int|
                            0 <= l < k && self.txs@[i as int].inputs@[l] == op),
                decreases m - k,
            {
                let op = self.txs[i].inputs[k];
                let ghost pre = r@;
                r.push(op);
                proof {
                    let txs = self.txs@;
                    assert(txs[i as int].inputs@[k as int] == op);
                    assert forall|x: OutPoint| r@.contains(x) implies ((exists|j: int|
                        0 <= j < i && txs[j].inputs@.contains(x)) || (exists|l: int|
                        0 <= l < k + 1 && txs[i as int].inputs@[l] == x)) by {
                        let j = choose|j: int| 0 <= j < r@.len() && r@[j] == x;
                        if j < pre.len() {
                            assert(pre[j] == x);
                            assert(pre.contains(x));
                        } else {
                            assert(x == op);
                        }
                    }
                    assert forall|x: OutPoint| ((exists|j: int|
                        0 <= j < i && txs[j].inputs@.contains(x)) || (exists|l: int|
                        0 <= l < k + 1 && txs[i as int].inputs@[l] == x)) implies r@.contains(x)
                    by {
                        if exists|j: int| 0 <= j < i && txs[j].inputs@.contains(x) {
                            assert(pre.contains(x));
                            let j = choose|j: int| 0 <= j < pre.len() && pre[j] == x;
                            assert(r@[j] == x);
                        } else {
                            let l = choose|l: int|
                                0 <= l < k + 1 && txs[i as int].inputs@[l] == x;
                            if l < k {
                                assert(pre.contains(x));
                                let j = choose|j: int| 0 <= j < pre.len() && pre[j] == x;
                                assert(r@[j] == x);
                            } else {
                                assert(x == op);
                                assert(r@[pre.len() as int] == op);
                            }
                        }
                    }
                }
                k += 1;
            }
            proof {
                let txs = self.txs@;
                assert forall|x: OutPoint| (exists|j: int|
                    0 <= j < i + 1 && txs[j].inputs@.contains(x)) implies r@.contains(x) by {
                    let j = choose|j: int| 0 <= j < i + 1 && txs[j].inputs@.contains(x);
                    if j == i {
                        let l = choose|l: int|
                            0 <= l < txs[i as int].inputs@.len() && txs[i as int].inputs@[l] == x;
                        assert(exists|l: int|
                            0 <= l < m && txs[i as int].inputs@[l] == x);
                    }
                }
                assert forall|x: OutPoint| r@.contains(x) implies (exists|j: int|
                    0 <= j < i + 1 && txs[j].inputs@.contains(x)) by {
                    if exists|l: int| 0 <= l < m && txs[i as int].inputs@[l] == x {
                        assert(txs[i as int].inputs@.contains(x));
                    }
                }
            }
            i += 1;
        }
        r
    }
}

/// A memo of fetched transactions keyed by id: lookups go here before any
/// network fetch, and every successful fetch is inserted.
pub struct TxCache {
    pub entries: Vec<(Hash32, Tx)>,
}

impl TxCache {
    /// Whether the cache holds a transaction under this id.
    pub open spec fn contains_txid(self, txid: Hash32) -> bool {
        exists|i: int| 0 <= i < self.entries@.len() && self.entries@[i].0 == txid
    }

    /// Each id occurs at most once.
    pub open spec fn wf(self) -> bool {
        forall|i: int, j: int|
            0 <= i < j < self.entries@.len() ==> self.entries@[i].0 != self.entries@[j].0
    }

    /// An empty cache.
    pub fn new() -> (r: TxCache)
        ensures
            r.wf(),
            r.entries@ == Seq::<(Hash32, Tx)>::empty(),
    {
        TxCache { entries: Vec::new() }
    }

    /// The cached transaction under `txid`, if any.
    pub fn get(&self, txid: &Hash32) -> (r: Option<&Tx>)
        requires
            self.wf(),
        ensures
            match r {
                Some(t) => exists|i: int|
                    0 <= i < self.entries@.len() && self.entries@[i] == (*txid, *t),
                None => !self.contains_txid(*txid),
            },
    {
        let n = self.entries.len();
        let mut i: usize = 0;
        while i < n
            invariant
                n == self.entries@.len(),
                i <= n,
                forall|j: int| 0 <= j < i ==> self.entries@[j].0 != *txid,
            decreases n - i,
        {
            if self.entries[i].0 == *txid {
                assert(self.entries@[i as int].0 == *txid);
                return Some(&self.entries[i].1);
            }
            i += 1;
        }
        None
    }

    /// Cache a fetched transaction. A fresh id stores exactly the given
    /// transaction; an id already cached keeps its first transaction, so two
    /// fetches of one id return the same transaction.
    pub fn insert(&mut self, txid: Hash32, tx: Tx)
        requires
            old(self).wf(),
        ensures
            final(self).wf(),
            final(self).contains_txid(txid),
            !old(self).contains_txid(txid) ==> final(self).entries@ == old(self).entries@.push(
                (txid, tx),
            ),
            old(self).contains_txid(txid) ==> final(self).entries@ == old(self).entries@,
    {
        let n = self.entries.len();
        let mut i: usize = 0;
        while i < n
            invariant
                *self == *old(self),
                old(self).wf(),
                n == self.entries@.len(),
                i <= n,
                forall|j: int| 0 <= j < i ==> self.entries@[j].0 != txid,
            decreases n - i,
        {
            if self.entries[i].0 == txid {
                return;
            }
            i += 1;
        }
        let ghost pre = self.entries@;
        self.entries.push((txid, tx));
        proof {
            assert(self.entries@[pre.len() as int].0 == txid);
        }
    }
}

} // verus!
