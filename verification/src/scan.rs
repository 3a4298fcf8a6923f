//! Script-pubkey scanning: the gap-limit stopping rule, Merkle-verified
//! anchor construction, and the decision logic of outpoint- and
//! txid-targeted scans. The index-server I/O is driven outside; everything
//! here works on the returned plain values.

use vstd::prelude::*;

use crate::graph::TxGraphUpdate;
use crate::types::{
    ConfirmationTimeHeightAnchor, Hash32, Header, HistoryEntry, MerkleProof, OutPoint, Tx, TxOut,
};

verus! {

/// The gap-limit machine: counts consecutive scripts with empty histories
/// and remembers the last index whose history was non-empty. Once the count
/// would exceed `stop_gap` the scan stops.
#[derive(Clone, Copy, PartialEq, Eq, Structural, Debug)]
pub struct SpkScanner {
    pub stop_gap: usize,
    pub unused_count: usize,
    pub last_active_index: Option<u32>,
    pub stopped: bool,
}

/// The machine a fresh scan starts from.
pub open spec fn fresh_scanner(stop_gap: usize) -> SpkScanner {
    SpkScanner { stop_gap, unused_count: 0, last_active_index: None, stopped: false }
}

/// One script's history processed: an empty history either stops the scan
/// (the gap is already full) or widens the gap; a non-empty history resets
/// the gap and becomes the last active index. A stopped machine ignores
/// everything.
pub open spec fn scan_step(s: SpkScanner, index: u32, history_empty: bool) -> SpkScanner {
    if s.stopped {
        s
    } else if history_empty {
        if s.unused_count >= s.stop_gap {
            SpkScanner { stopped: true, ..s }
        } else {
            SpkScanner { unused_count: (s.unused_count + 1) as usize, ..s }
        }
    } else {
        SpkScanner { unused_count: 0, last_active_index: Some(index), ..s }
    }
}

/// The machine after a whole sequence of `(index, history_empty)` entries.
pub open spec fn scan_fold(s: SpkScanner, entries: Seq<(u32, bool)>) -> SpkScanner
    decreases entries.len(),
{
    if entries.len() == 0 {
        s
    } else {
        scan_fold(scan_step(s, entries[0].0, entries[0].1), entries.drop_first())
    }
}

/// How many entries the machine examines before it stops (all of them when
/// the gap limit is never exceeded).
pub open spec fn scan_consumed(s: SpkScanner, entries: Seq<(u32, bool)>) -> nat
    decreases entries.len(),
{
    if entries.len() == 0 || s.stopped {
        0
    } else {
        1 + scan_consumed(scan_step(s, entries[0].0, entries[0].1), entries.drop_first())
    }
}

/// A stopped machine stays exactly as it is.
pub proof fn lemma_scan_fold_stopped(s: SpkScanner, entries: Seq<(u32, bool)>)
    requires
        s.stopped,
    ensures
        scan_fold(s, entries) == s,
    decreases entries.len(),
{
    if entries.len() > 0 {
        lemma_scan_fold_stopped(s, entries.drop_first());
    }
}

/// Folding one more entry at the end is one more step, and consumes one more
/// entry unless the machine already stopped.
pub proof fn lemma_scan_push(s: SpkScanner, entries: Seq<(u32, bool)>, e: (u32, bool))
    ensures
        scan_fold(s, entries.push(e)) == scan_step(scan_fold(s, entries), e.0, e.1),
        scan_consumed(s, entries.push(e)) == scan_consumed(s, entries) + (
        if scan_fold(s, entries).stopped {
            0int
        } else {
            1int
        }),
    decreases entries.len(),
{
    let p = entries.push(e);
    if s.stopped {
        lemma_scan_fold_stopped(s, entries);
        lemma_scan_fold_stopped(s, p);
        assert(scan_step(s, e.0, e.1) == s);
        assert(scan_consumed(s, p) == 0);
        assert(scan_consumed(s, entries) == 0);
    } else if entries.len() == 0 {
        assert(p[0] == e);
        assert(p.drop_first() =~= Seq::<(u32, bool)>::empty());
        assert(scan_fold(s, p) == scan_fold(scan_step(s, p[0].0, p[0].1), p.drop_first()));
        assert(scan_fold(scan_step(s, e.0, e.1), p.drop_first()) == scan_step(s, e.0, e.1));
        assert(scan_fold(s, entries) == s);
        assert(scan_consumed(s, p) == 1 + scan_consumed(scan_step(s, p[0].0, p[0].1), p.drop_first()));
        assert(scan_consumed(s, entries) == 0);
    } else {
        let s2 = scan_step(s, entries[0].0, entries[0].1);
        lemma_scan_push(s2, entries.drop_first(), e);
        assert(p[0] == entries[0]);
        assert(p.drop_first() =~= entries.drop_first().push(e));
        assert(scan_fold(s, p) == scan_fold(s2, p.drop_first()));
        assert(scan_fold(s, entries) == scan_fold(s2, entries.drop_first()));
        assert(scan_consumed(s, p) == 1 + scan_consumed(s2, p.drop_first()));
        assert(scan_consumed(s, entries) == 1 + scan_consumed(s2, entries.drop_first()));
    }
}

impl SpkScanner {
    /// The gap count never exceeds the gap limit.
    pub open spec fn wf(self) -> bool {
        self.unused_count <= self.stop_gap
    }

    /// A fresh machine for one keychain scan.
    pub fn new(stop_gap: usize) -> (r: SpkScanner)
        ensures
            r == fresh_scanner(stop_gap),
            r.wf(),
    {
        SpkScanner { stop_gap, unused_count: 0, last_active_index: None, stopped: false }
    }

    /// Feed one script's index and whether its history came back empty.
    pub fn process_spk(&mut self, index: u32, history_empty: bool)
        requires
            old(self).wf(),
        ensures
            final(self).wf(),
            *final(self) == scan_step(*old(self), index, history_empty),
    {
        if self.stopped {
            return;
        }
        if history_empty {
            if self.unused_count >= self.stop_gap {
                self.stopped = true;
            } else {
                self.unused_count += 1;
            }
        } else {
            self.unused_count = 0;
            self.last_active_index = Some(index);
        }
    }

    /// Feed one fetched batch, in the order the scripts were supplied: the
    /// gap-count semantics depend on that order.
    pub fn process_batch(&mut self, entries: &Vec<(u32, bool)>)
        requires
            old(self).wf(),
        ensures
            final(self).wf(),
            *final(self) == scan_fold(*old(self), entries@),
    {
        let n = entries.len();
        let mut i: usize = 0;
        while i < n
            invariant
                old(self).wf(),
                n == entries@.len(),
                i <= n,
                self.wf(),
                *self == scan_fold(*old(self), entries@.subrange(0, i as int)),
            decreases n - i,
        {
            let e = entries[i];
            proof {
                let pre = entries@.subrange(0, i as int);
                assert(entries@.subrange(0, i + 1) =~= pre.push(e));
                lemma_scan_push(*old(self), pre, e);
            }
            self.process_spk(e.0, e.1);
            i += 1;
        }
        proof {
            assert(entries@.subrange(0, n as int) =~= entries@);
        }
    }
}

/// Run a whole gap-limit scan over scripts enumerated from index zero, given
/// each script's index and whether its history came back empty, in order.
///
/// Gap-limit soundness: the result equals the machine's fold; when the last
/// active index is `k`, every script examined after `k` (there are at most
/// `stop_gap + 1` of them, and none beyond the returned count was examined)
/// had an empty history; when no index was active, every examined script
/// did. A stop before the end only ever happens with the gap full.
pub fn scan_histories(stop_gap: usize, entries: &Vec<(u32, bool)>) -> (r: (Option<u32>, usize))
    requires
        forall|i: int| 0 <= i < entries@.len() ==> entries@[i].0 == i as u32,
        entries@.len() <= u32::MAX,
    ensures
        r.0 == scan_fold(fresh_scanner(stop_gap), entries@).last_active_index,
        r.1 == scan_consumed(fresh_scanner(stop_gap), entries@),
        r.1 <= entries@.len(),
        r.0 matches Some(k) ==> k < r.1 && entries@[k as int].1 == false && (forall|j: int|
            k < j < r.1 ==> entries@[j].1 == true) && r.1 <= k + stop_gap + 2,
        r.0 is None ==> (forall|j: int| 0 <= j < r.1 ==> entries@[j].1 == true) && r.1 <= stop_gap
            + 1,
        r.1 < entries@.len() ==> scan_fold(fresh_scanner(stop_gap), entries@).stopped,
{
    let ghost s0 = fresh_scanner(stop_gap);
    let mut unused: usize = 0;
    let mut last_active: Option<u32> = None;
    let n = entries.len();
    let mut i: usize = 0;
    while i < n
        invariant
            forall|t: int| 0 <= t < entries@.len() ==> entries@[t].0 == t as u32,
            entries@.len() <= u32::MAX,
            s0 == fresh_scanner(stop_gap),
            n == entries@.len(),
            i <= n,
            unused <= stop_gap,
            scan_fold(s0, entries@.subrange(0, i as int)) == (SpkScanner {
                stop_gap,
                unused_count: unused,
                last_active_index: last_active,
                stopped: false,
            }),
            scan_consumed(s0, entries@.subrange(0, i as int)) == i,
            last_active matches Some(k) ==> k < i && entries@[k as int].1 == false
                && (forall|j: int| k < j < i ==> entries@[j].1 == true)
                && i - (k + 1) == unused,
            last_active is None ==> (forall|j: int| 0 <= j < i ==> entries@[j].1 == true) && i
                == unused,
        decreases n - i,
    {
        let e = entries[i];
        proof {
            let pre = entries@.subrange(0, i as int);
            assert(entries@.subrange(0, i + 1) =~= pre.push(e));
            lemma_scan_push(s0, pre, e);
        }
        if e.1 {
            if unused >= stop_gap {
                // the gap is full: this script closes the scan
                proof {
                    let upto = entries@.subrange(0, i + 1);
                    lemma_scan_fold_stopped(scan_fold(s0, upto), entries@.skip(i + 1));
                    assert(entries@ =~= upto + entries@.skip(i + 1));
                    lemma_scan_fold_split(s0, upto, entries@.skip(i + 1));
                }
                return (last_active, i + 1);
            }
            unused += 1;
        } else {
            unused = 0;
            last_active = Some(e.0);
            proof {
                assert(entries@[i as int].0 == i as u32);
            }
        }
        i += 1;
    }
    proof {
        assert(entries@.subrange(0, n as int) =~= entries@);
    }
    (last_active, n)
}

/// Folding a concatenation folds the parts in order; consumption adds up
/// while the machine is running.
pub proof fn lemma_scan_fold_split(s: SpkScanner, a: Seq<(u32, bool)>, b: Seq<(u32, bool)>)
    ensures
        scan_fold(s, a + b) == scan_fold(scan_fold(s, a), b),
        scan_consumed(s, a + b) == scan_consumed(s, a) + (
        if scan_fold(s, a).stopped {
            0int
        } else {
            scan_consumed(scan_fold(s, a), b) as int
        }),
    decreases a.len(),
{
    let c = a + b;
    if s.stopped {
        lemma_scan_fold_stopped(s, a);
        lemma_scan_fold_stopped(s, b);
        lemma_scan_fold_stopped(s, c);
        assert(scan_consumed(s, c) == 0);
        assert(scan_consumed(s, a) == 0);
    } else if a.len() == 0 {
        assert(c =~= b);
        assert(scan_fold(s, a) == s);
        assert(scan_consumed(s, a) == 0);
    } else {
        let s2 = scan_step(s, a[0].0, a[0].1);
        lemma_scan_fold_split(s2, a.drop_first(), b);
        assert(c.len() > 0);
        assert(c[0] == a[0]);
        assert(c.drop_first() =~= a.drop_first() + b);
        assert(scan_fold(s, c) == scan_fold(s2, c.drop_first()));
        assert(scan_fold(s, a) == scan_fold(s2, a.drop_first()));
        assert(scan_consumed(s, c) == 1 + scan_consumed(s2, c.drop_first()));
        assert(scan_consumed(s, a) == 1 + scan_consumed(s2, a.drop_first()));
    }
}

/// What an index server's Merkle proof validation returns for a transaction
/// id, a Merkle root, a position in the block, and a path of sibling hashes.
/// The result is a function of these values alone.
pub uninterp spec fn merkle_proof_valid(
    txid: Seq<u8>,
    merkle_root: Seq<u8>,
    pos: int,
    merkle: Seq<Seq<u8>>,
) -> bool;

/// What hashing a block header returns, as a function of the header's six
/// fields.
pub uninterp spec fn header_hash(
    version: int,
    prev_blockhash: Seq<u8>,
    merkle_root: Seq<u8>,
    time: int,
    bits: int,
    nonce: int,
) -> Seq<u8>;

/// The eight little-endian bytes of one hash word.
pub fn u64_le_byte_vec(x: u64) -> (r: Vec<u8>)
    ensures
        r@ == crate::types::u64_le_bytes(x),
{
    let mut r: Vec<u8> = Vec::new();
    r.push((x & 0xff) as u8);
    r.push(((x >> 8) & 0xff) as u8);
    r.push(((x >> 16) & 0xff) as u8);
    r.push(((x >> 24) & 0xff) as u8);
    r.push(((x >> 32) & 0xff) as u8);
    r.push(((x >> 40) & 0xff) as u8);
    r.push(((x >> 48) & 0xff) as u8);
    r.push(((x >> 56) & 0xff) as u8);
    proof {
        assert(r@ =~= crate::types::u64_le_bytes(x));
    }
    r
}

/// A hash laid out as its 32 bytes.
pub fn hash32_le_bytes(h: &Hash32) -> (r: Vec<u8>)
    ensures
        r@ == h@,
{
    let mut r = u64_le_byte_vec(h.w0);
    let mut r1 = u64_le_byte_vec(h.w1);
    let mut r2 = u64_le_byte_vec(h.w2);
    let mut r3 = u64_le_byte_vec(h.w3);
    r.append(&mut r1);
    r.append(&mut r2);
    r.append(&mut r3);
    proof {
        assert(r@ =~= h@);
    }
    r
}

/// One hash word rebuilt from its eight little-endian bytes.
fn u64_from_le_parts(b0: u8, b1: u8, b2: u8, b3: u8, b4: u8, b5: u8, b6: u8, b7: u8) -> (w: u64)
    ensures
        crate::types::u64_le_bytes(w) == seq![b0, b1, b2, b3, b4, b5, b6, b7],
{
    let w: u64 = (b0 as u64) | ((b1 as u64) << 8) | ((b2 as u64) << 16) | ((b3 as u64) << 24) | (
    (b4 as u64) << 32) | ((b5 as u64) << 40) | ((b6 as u64) << 48) | ((b7 as u64) << 56);
    proof {
        assert((w & 0xff) as u8 == b0 && ((w >> 8) & 0xff) as u8 == b1 && ((w >> 16) & 0xff) as u8
            == b2 && ((w >> 24) & 0xff) as u8 == b3 && ((w >> 32) & 0xff) as u8 == b4 && ((w >> 40)
            & 0xff) as u8 == b5 && ((w >> 48) & 0xff) as u8 == b6 && ((w >> 56) & 0xff) as u8
            == b7) by (bit_vector)
            requires
                w == (b0 as u64) | ((b1 as u64) << 8) | ((b2 as u64) << 16) | ((b3 as u64) << 24)
                    | ((b4 as u64) << 32) | ((b5 as u64) << 40) | ((b6 as u64) << 48) | ((
                b7 as u64) << 56),
        ;
        assert(crate::types::u64_le_bytes(w) =~= seq![b0, b1, b2, b3, b4, b5, b6, b7]);
    }
    w
}

/// A hash rebuilt from its 32 bytes.
fn hash32_of_bytes(b: &[u8; 32]) -> (r: Hash32)
    ensures
        r@ == b@,
{
    let w0 = u64_from_le_parts(b[0], b[1], b[2], b[3], b[4], b[5], b[6], b[7]);
    let w1 = u64_from_le_parts(b[8], b[9], b[10], b[11], b[12], b[13], b[14], b[15]);
    let w2 = u64_from_le_parts(b[16], b[17], b[18], b[19], b[20], b[21], b[22], b[23]);
    let w3 = u64_from_le_parts(b[24], b[25], b[26], b[27], b[28], b[29], b[30], b[31]);
    let r = Hash32 { w0, w1, w2, w3 };
    proof {
        assert(r@ =~= b@);
    }
    r
}

/// Relies on electrum_client's validate_merkle_proof: whether the Merkle
/// path at the given position hashes from the transaction id up to the
/// given Merkle root. The result depends on these values alone.
#[verifier::external_body]
fn validate_merkle_call(txid: &Hash32, merkle_root: &Hash32, merkle_res: &MerkleProof) -> (r: bool)
    ensures
        r == merkle_proof_valid(
            txid@,
            merkle_root@,
            merkle_res.pos as int,
            merkle_res.merkle@.map_values(|h: Hash32| h@),
        ),
{
    let res = electrum_client::GetMerkleRes {
        block_height: merkle_res.block_height as usize,
        pos: merkle_res.pos,
        merkle: merkle_res
            .merkle
            .iter()
            .map(|h| hash32_le_bytes(h).try_into().unwrap())
            .collect(),
    };
    let txid = <bitcoin::Txid as bitcoin::hashes::Hash>::from_slice(&hash32_le_bytes(txid)).unwrap();
    let root = <bitcoin::TxMerkleNode as bitcoin::hashes::Hash>::from_slice(&hash32_le_bytes(merkle_root)).unwrap();
    electrum_client::utils::validate_merkle_proof(&txid, &root, &res)
}

/// Relies on bitcoin's Header::block_hash: the block hash is a digest of
/// the header's six fields and of nothing else.
#[verifier::external_body]
fn compute_header_hash(h: &Header) -> (r: Hash32)
    ensures
        r@ == header_hash(
            h.version as int,
            h.prev_blockhash@,
            h.merkle_root@,
            h.time as int,
            h.bits as int,
            h.nonce as int,
        ),
{
    let header = bitcoin::block::Header {
        version: bitcoin::block::Version::from_consensus(h.version),
        prev_blockhash: <bitcoin::BlockHash as bitcoin::hashes::Hash>::from_slice(&hash32_le_bytes(&h.prev_blockhash)).unwrap(),
        merkle_root: <bitcoin::TxMerkleNode as bitcoin::hashes::Hash>::from_slice(&hash32_le_bytes(&h.merkle_root)).unwrap(),
        time: h.time,
        bits: bitcoin::CompactTarget::from_consensus(h.bits),
        nonce: h.nonce,
    };
    let b = <bitcoin::BlockHash as bitcoin::hashes::Hash>::to_byte_array(header.block_hash());
    hash32_of_bytes(&b)
}

/// Build confirmation evidence for `txid` from a Merkle proof and the header
/// fetched at the proof's height: an anchor comes back exactly when the
/// proof verifies against the header's Merkle root, and it names the proof's
/// height, the header's time, and the header's own hash.
pub fn merkle_anchor(txid: &Hash32, header: &Header, merkle_res: &MerkleProof) -> (r: Option<
    ConfirmationTimeHeightAnchor,
>)
    ensures
        r is Some <==> merkle_proof_valid(
            txid@,
            header.merkle_root@,
            merkle_res.pos as int,
            merkle_res.merkle@.map_values(|h: Hash32| h@),
        ),
        r matches Some(a) ==> a.confirmation_height == merkle_res.block_height && a.confirmation_time
            == header.time as u64 && a.anchor_block.height == merkle_res.block_height
            && a.anchor_block.hash@ == header_hash(
            header.version as int,
            header.prev_blockhash@,
            header.merkle_root@,
            header.time as int,
            header.bits as int,
            header.nonce as int,
        ),
{
    if validate_merkle_call(txid, &header.merkle_root, merkle_res) {
        let hash = compute_header_hash(header);
        Some(
            ConfirmationTimeHeightAnchor {
                confirmation_height: merkle_res.block_height,
                confirmation_time: header.time as u64,
                anchor_block: crate::types::BlockId { height: merkle_res.block_height, hash },
            },
        )
    } else {
        None
    }
}

/// Validate a Merkle proof and, on success, record the anchor in the graph
/// update. Anchor trust: an anchor enters the update only through a proof
/// that verified against a header fetched at its stated height; a failed
/// proof changes nothing, and a success adds at most that one pair, leaving
/// everything already recorded in place.
pub fn insert_merkle_anchor(
    graph: &mut TxGraphUpdate,
    txid: &Hash32,
    header: &Header,
    merkle_res: &MerkleProof,
) -> (anchored: bool)
    requires
        old(graph).wf(),
    ensures
        final(graph).wf(),
        anchored <==> merkle_proof_valid(
            txid@,
            header.merkle_root@,
            merkle_res.pos as int,
            merkle_res.merkle@.map_values(|h: Hash32| h@),
        ),
        anchored ==> exists|a: ConfirmationTimeHeightAnchor|
            final(graph).has_anchor(a, *txid) && (final(graph).anchors@ == old(graph).anchors@
                || final(graph).anchors@ == old(graph).anchors@.push((a, *txid)))
                && a.confirmation_height == merkle_res.block_height && a.confirmation_time
                == header.time as u64 && a.anchor_block.height == merkle_res.block_height
                && a.anchor_block.hash@ == header_hash(
                header.version as int,
                header.prev_blockhash@,
                header.merkle_root@,
                header.time as int,
                header.bits as int,
                header.nonce as int,
            ),
        !anchored ==> final(graph).anchors@ == old(graph).anchors@,
        final(graph).txs@ == old(graph).txs@,
        final(graph).txouts@ == old(graph).txouts@,
{
    match merkle_anchor(txid, header, merkle_res) {
        Some(anchor) => {
            let _inserted = graph.insert_anchor(anchor, *txid);
            assert(graph.has_anchor(anchor, *txid));
            true
        },
        None => false,
    }
}

/// The first history entry reporting `txid`, if any; the txid-targeted scan
/// anchors a transaction at the height this entry reports.
pub fn find_history_entry(txid: &Hash32, history: &Vec<HistoryEntry>) -> (r: Option<HistoryEntry>)
    ensures
        r matches Some(e) ==> e.tx_hash == *txid && (exists|i: int|
            0 <= i < history@.len() && history@[i] == e && (forall|j: int|
                0 <= j < i ==> history@[j].tx_hash != *txid)),
        r is None ==> forall|i: int| 0 <= i < history@.len() ==> history@[i].tx_hash != *txid,
{
    let n = history.len();
    let mut i: usize = 0;
    while i < n
        invariant
            n == history@.len(),
            i <= n,
            forall|j: int| 0 <= j < i ==> history@[j].tx_hash != *txid,
        decreases n - i,
    {
        if history[i].tx_hash == *txid {
            return Some(history[i]);
        }
        i += 1;
    }
    None
}

/// Whether some input of `tx` spends `outpoint`.
pub fn tx_spends(tx: &Tx, outpoint: &OutPoint) -> (r: bool)
    ensures
        r == tx.inputs@.contains(*outpoint),
{
    let n = tx.inputs.len();
    let mut i: usize = 0;
    while i < n
        invariant
            n == tx.inputs@.len(),
            i <= n,
            forall|j: int| 0 <= j < i ==> tx.inputs@[j] != *outpoint,
        decreases n - i,
    {
        if tx.inputs[i] == *outpoint {
            assert(tx.inputs@[i as int] == *outpoint);
            return true;
        }
        i += 1;
    }
    assert(forall|j: int| 0 <= j < tx.inputs@.len() ==> tx.inputs@[j] != *outpoint);
    false
}

/// What the outpoint-targeted scan does with one history entry.
#[derive(Clone, Copy, PartialEq, Eq, Debug)]
pub enum OutpointAction {
    /// Both the residing and the spending transaction were found: stop.
    Stop,
    /// The entry is the transaction the outpoint resides in: record it.
    TakeResiding,
    /// The entry may spend the outpoint: fetch it and check its inputs.
    CheckSpending,
    /// Nothing new in this entry: walk on.
    Skip,
}

/// The outpoint-targeted scan walks a script's history looking for at most
/// two transactions: the one the outpoint resides in, and the one spending
/// it.
#[derive(Clone, Copy, PartialEq, Eq, Structural, Debug)]
pub struct OutpointScan {
    pub has_residing: bool,
    pub has_spending: bool,
}

impl OutpointScan {
    /// A walk that has found neither transaction yet.
    pub fn new() -> (r: OutpointScan)
        ensures
            r == (OutpointScan { has_residing: false, has_spending: false }),
    {
        OutpointScan { has_residing: false, has_spending: false }
    }

    /// Classify one history entry of the outpoint's script against the
    /// outpoint's own transaction id.
    pub fn classify(&self, entry: &HistoryEntry, op_txid: &Hash32) -> (r: OutpointAction)
        ensures
            self.has_residing && self.has_spending ==> r is Stop,
            !(self.has_residing && self.has_spending) && !self.has_residing && entry.tx_hash
                == *op_txid ==> r is TakeResiding,
            !(self.has_residing && self.has_spending) && !self.has_spending && entry.tx_hash
                != *op_txid ==> r is CheckSpending,
            !(self.has_residing && self.has_spending) && (self.has_residing && entry.tx_hash
                == *op_txid || self.has_spending && entry.tx_hash != *op_txid) ==> r is Skip,
    {
        if self.has_residing && self.has_spending {
            OutpointAction::Stop
        } else if !self.has_residing && entry.tx_hash == *op_txid {
            OutpointAction::TakeResiding
        } else if !self.has_spending && entry.tx_hash != *op_txid {
            OutpointAction::CheckSpending
        } else {
            OutpointAction::Skip
        }
    }

    /// The residing transaction was recorded.
    pub fn mark_residing(&mut self)
        ensures
            *final(self) == (OutpointScan { has_residing: true, ..*old(self) }),
    {
        self.has_residing = true;
    }

    /// Check whether a fetched candidate actually spends the outpoint, and
    /// remember it when it does.
    pub fn check_spending(&mut self, candidate: &Tx, outpoint: &OutPoint) -> (spends: bool)
        ensures
            spends == candidate.inputs@.contains(*outpoint),
            *final(self) == (OutpointScan {
                has_spending: old(self).has_spending || spends,
                ..*old(self)
            }),
    {
        let spends = tx_spends(candidate, outpoint);
        if spends {
            self.has_spending = true;
        }
        spends
    }
}

/// A verified copy of a byte vector.
pub fn copy_bytes(src: &Vec<u8>) -> (r: Vec<u8>)
    ensures
        r@ == src@,
{
    let n = src.len();
    let mut r: Vec<u8> = Vec::new();
    let mut i: usize = 0;
    while i < n
        invariant
            n == src@.len(),
            i <= n,
            r@ == src@.subrange(0, i as int),
        decreases n - i,
    {
        r.push(src[i]);
        proof {
            assert(r@ =~= src@.subrange(0, i + 1));
        }
        i += 1;
    }
    proof {
        assert(src@.subrange(0, n as int) =~= src@);
    }
    r
}

/// Record, for fee computation, the output that `outpoint` names, read out
/// of the previous transaction it points into.
pub fn insert_prev_txout(graph: &mut TxGraphUpdate, outpoint: OutPoint, prev_tx: &Tx)
    requires
        old(graph).wf(),
        outpoint.vout < prev_tx.outputs@.len(),
    ensures
        final(graph).wf(),
        final(graph).has_txout(outpoint),
        !old(graph).has_txout(outpoint) ==> (
            final(graph).txouts@.len() == old(graph).txouts@.len() + 1
            && final(graph).txouts@.last().0 == outpoint
            && final(graph).txouts@.last().1.value
                == prev_tx.outputs@[outpoint.vout as int].value
            && final(graph).txouts@.last().1.script_pubkey@
                == prev_tx.outputs@[outpoint.vout as int].script_pubkey@
        ),
        old(graph).has_txout(outpoint) ==> final(graph).txouts@ == old(graph).txouts@,
        final(graph).txs@ == old(graph).txs@,
        final(graph).anchors@ == old(graph).anchors@,
{
    let src = &prev_tx.outputs[outpoint.vout as usize];
    let txout = TxOut { value: src.value, script_pubkey: copy_bytes(&src.script_pubkey) };
    let _ = graph.insert_txout(outpoint, txout);
}

} // verus!
