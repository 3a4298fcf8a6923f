//! Index-server tip synchronization: reconcile the caller's previous tip
//! with the server's current tip through an agreement point, and complete
//! the resulting chain update with a checkpoint for every anchor height.

use vstd::prelude::*;

use crate::checkpoint::CheckPoint;
use crate::types::{BlockId, ConfirmationTimeHeightAnchor, Hash32};

verus! {

/// How many recent blocks are fetched in one window, for robustness against
/// reorgs around the tip.
pub const CHAIN_SUFFIX_LENGTH: u32 = 8;

/// A dense height-to-hash mapping, held in ascending height order: the
/// server's recent-blocks window, extended by per-height header fetches.
#[derive(Clone, Debug)]
pub struct BlocksMap {
    pub entries: Vec<(u32, Hash32)>,
}

impl BlocksMap {
    /// Heights strictly increase, so each height occurs once.
    pub open spec fn wf(self) -> bool {
        forall|i: int, j: int|
            0 <= i < j < self.entries@.len() ==> self.entries@[i].0 < self.entries@[j].0
    }

    /// Whether the map holds a hash for `height`.
    pub open spec fn has_height(self, height: u32) -> bool {
        exists|i: int| 0 <= i < self.entries@.len() && self.entries@[i].0 == height
    }

    /// Whether the map binds `height` to exactly `hash`.
    pub open spec fn has_pair(self, height: u32, hash: Hash32) -> bool {
        exists|i: int| 0 <= i < self.entries@.len() && self.entries@[i] == (height, hash)
    }

    /// Whether the map binds the block's height to a different hash.
    pub open spec fn mismatches(self, b: BlockId) -> bool {
        exists|i: int|
            0 <= i < self.entries@.len() && self.entries@[i].0 == b.height && self.entries@[i].1
                != b.hash
    }

    /// An empty map.
    pub fn new() -> (r: BlocksMap)
        ensures
            r.wf(),
            r.entries@ == Seq::<(u32, Hash32)>::empty(),
    {
        BlocksMap { entries: Vec::new() }
    }

    /// How many heights the map holds.
    pub fn len(&self) -> (r: usize)
        ensures
            r == self.entries@.len(),
    {
        self.entries.len()
    }

    /// The entry at position `i`, lowest height first.
    pub fn entry_at(&self, i: usize) -> (r: (u32, Hash32))
        requires
            i < self.entries@.len(),
        ensures
            r == self.entries@[i as int],
    {
        self.entries[i]
    }

    /// The hash at `height`, if the map holds one.
    pub fn get(&self, height: u32) -> (r: Option<Hash32>)
        requires
            self.wf(),
        ensures
            match r {
                Some(h) => self.has_pair(height, h),
                None => !self.has_height(height),
            },
    {
        let n = self.entries.len();
        let mut i: usize = 0;
        while i < n
            invariant
                n == self.entries@.len(),
                i <= n,
                forall|j: int| 0 <= j < i ==> self.entries@[j].0 != height,
            decreases n - i,
        {
            if self.entries[i].0 == height {
                assert(self.entries@[i as int].0 == height);
                return Some(self.entries[i].1);
            }
            i += 1;
        }
        None
    }

    /// Bind `height` to `hash`; the map must not hold that height yet.
    pub fn insert(&mut self, height: u32, hash: Hash32)
        requires
            old(self).wf(),
            !old(self).has_height(height),
        ensures
            final(self).wf(),
            final(self).entries@.len() == old(self).entries@.len() + 1,
            final(self).has_pair(height, hash),
            forall|p: (u32, Hash32)|
                old(self).entries@.contains(p) ==> final(self).entries@.contains(p),
            forall|p: (u32, Hash32)|
                final(self).entries@.contains(p) ==> p == (height, hash) || old(
                    self,
                ).entries@.contains(p),
    {
        let ghost pre = self.entries@;
        let n = self.entries.len();
        let mut i: usize = 0;
        while i < n && self.entries[i].0 < height
            invariant
                n == self.entries@.len(),
                i <= n,
                forall|j: int| 0 <= j < i ==> self.entries@[j].0 < height,
                self.entries@ == pre,
            decreases n - i,
        {
            i += 1;
        }
        proof {
            if i < n {
                assert(pre[i as int].0 != height);
                assert(pre[i as int].0 > height);
            }
        }
        self.entries.insert(i, (height, hash));
        proof {
            let post = self.entries@;
            assert(post == pre.insert(i as int, (height, hash)));
            assert forall|a: int, b: int| 0 <= a < b < post.len() implies post[a].0 < post[b].0
            by {
                if a < i && b < i {
                } else if a < i && b == i {
                } else if a < i && b > i {
                    assert(post[a] == pre[a]);
                    assert(post[b] == pre[b - 1]);
                    assert(pre[a].0 < pre[b - 1].0);
                } else if a == i {
                    assert(post[b] == pre[b - 1]);
                    assert(pre[i as int].0 <= pre[b - 1].0);
                } else {
                    assert(post[a] == pre[a - 1]);
                    assert(post[b] == pre[b - 1]);
                }
            }
            assert(post.contains((height, hash))) by {
                assert(post[i as int] == (height, hash));
            }
            assert forall|p: (u32, Hash32)| pre.contains(p) implies post.contains(p) by {
                let j = choose|j: int| 0 <= j < pre.len() && pre[j] == p;
                if j < i {
                    assert(post[j] == p);
                } else {
                    assert(post[j + 1] == p);
                }
            }
            assert forall|p: (u32, Hash32)| post.contains(p) implies p == (height, hash)
                || pre.contains(p) by {
                let j = choose|j: int| 0 <= j < post.len() && post[j] == p;
                if j < i {
                    assert(pre[j] == p);
                } else if j > i {
                    assert(pre[j - 1] == p);
                }
            }
        }
    }
}

/// A well-formed blocks map binds each height to at most one hash.
pub proof fn lemma_blocks_map_unique(blocks: BlocksMap, height: u32, x1: Hash32, x2: Hash32)
    requires
        blocks.wf(),
        blocks.has_pair(height, x1),
        blocks.has_pair(height, x2),
    ensures
        x1 == x2,
{
    let i1 = choose|i: int|
        0 <= i < blocks.entries@.len() && blocks.entries@[i] == (height, x1);
    let i2 = choose|i: int|
        0 <= i < blocks.entries@.len() && blocks.entries@[i] == (height, x2);
    if i1 < i2 {
        assert(blocks.entries@[i1].0 < blocks.entries@[i2].0);
    } else if i2 < i1 {
        assert(blocks.entries@[i2].0 < blocks.entries@[i1].0);
    }
}

/// Turn the fetched window of `count` headers starting at `start_height`
/// into a blocks map.
pub fn window_to_blocks_map(start_height: u32, hashes: &Vec<Hash32>) -> (r: BlocksMap)
    requires
        start_height + hashes@.len() <= u32::MAX + 1,
    ensures
        r.wf(),
        r.entries@.len() == hashes@.len(),
        forall|i: int|
            0 <= i < hashes@.len() ==> r.entries@[i] == (
                (start_height + i) as u32,
                hashes@[i],
            ),
{
    let n = hashes.len();
    let mut entries: Vec<(u32, Hash32)> = Vec::new();
    let mut i: usize = 0;
    while i < n
        invariant
            n == hashes@.len(),
            start_height + n <= u32::MAX + 1,
            i <= n,
            entries@.len() == i,
            forall|j: int|
                0 <= j < i ==> entries@[j] == ((start_height + j) as u32, hashes@[j]),
        decreases n - i,
    {
        entries.push((start_height + i as u32, hashes[i]));
        i += 1;
    }
    BlocksMap { entries }
}

/// How a tip synchronization starts.
#[derive(Clone, Copy, PartialEq, Eq, Debug)]
pub enum TipSyncStart {
    /// The server's tip is below ours: keep the previous tip, no update.
    ClientAhead,
    /// Fetch the recent-blocks window beginning at this height.
    FetchWindow { start_height: u32 },
}

/// Decide how to synchronize against a server tip at `server_height`: a
/// server below our tip yields no update; otherwise the recent window of
/// `CHAIN_SUFFIX_LENGTH` blocks ending at the server tip is fetched.
pub fn tip_sync_begin(prev_tip: &CheckPoint, server_height: u32) -> (r: TipSyncStart)
    requires
        prev_tip.wf(),
    ensures
        server_height < prev_tip.spec_tip().height ==> r is ClientAhead,
        server_height >= prev_tip.spec_tip().height ==> r == (TipSyncStart::FetchWindow {
            start_height: (if server_height >= CHAIN_SUFFIX_LENGTH - 1 {
                (server_height - (CHAIN_SUFFIX_LENGTH - 1)) as u32
            } else {
                0u32
            }),
        }),
{
    if server_height < prev_tip.height() {
        TipSyncStart::ClientAhead
    } else {
        let start_height = if server_height >= CHAIN_SUFFIX_LENGTH - 1 {
            server_height - (CHAIN_SUFFIX_LENGTH - 1)
        } else {
            0
        };
        TipSyncStart::FetchWindow { start_height }
    }
}

/// Where the agreement walk stands after examining the checkpoints from the
/// tip down.
#[derive(Clone, Copy, PartialEq, Eq, Debug)]
pub enum AgreementStep {
    /// The checkpoint at this position still matches the server.
    Agreement { pos: usize },
    /// The walk needs the server's hash at `height` before it can go on
    /// from position `pos`.
    NeedHeader { height: u32, pos: usize },
    /// Every checkpoint disagrees with the server.
    NoAgreement,
}

/// Walk the previous tip from `start_pos` towards the root, comparing each
/// checkpoint with the server's hash at its height, until one agrees. The
/// walk pauses when a height is missing from the map: the driver fetches
/// that header, inserts it, and resumes at the same position.
pub fn find_agreement(
    prev_tip: &CheckPoint,
    blocks: &BlocksMap,
    start_pos: usize,
) -> (r: AgreementStep)
    requires
        prev_tip.wf(),
        blocks.wf(),
        start_pos < prev_tip@.len(),
    ensures
        r matches AgreementStep::Agreement { pos } ==> pos <= start_pos && blocks.has_pair(
            prev_tip@[pos as int].height,
            prev_tip@[pos as int].hash,
        ) && (forall|q: int| pos < q <= start_pos ==> blocks.mismatches(prev_tip@[q])),
        r matches AgreementStep::NeedHeader { height, pos } ==> pos <= start_pos && height
            == prev_tip@[pos as int].height && !blocks.has_height(height) && (forall|q: int|
            pos < q <= start_pos ==> blocks.mismatches(prev_tip@[q])),
        r is NoAgreement ==> forall|q: int|
            0 <= q <= start_pos ==> blocks.mismatches(prev_tip@[q]),
{
    let mut pos = start_pos;
    loop
        invariant
            prev_tip.wf(),
            blocks.wf(),
            start_pos < prev_tip@.len(),
            pos <= start_pos,
            forall|q: int| pos < q <= start_pos ==> blocks.mismatches(prev_tip@[q]),
        decreases pos,
    {
        let cp = prev_tip.block_at(pos);
        match blocks.get(cp.height) {
            Some(h) => {
                if h == cp.hash {
                    return AgreementStep::Agreement { pos };
                }
                if pos == 0 {
                    return AgreementStep::NoAgreement;
                }
                pos -= 1;
            },
            None => {
                return AgreementStep::NeedHeader { height: cp.height, pos };
            },
        }
    }
}

/// Build the new tip: the previous tip kept up to the agreement point, then
/// every window block above the agreement height, in increasing height
/// order. Without an agreement point the new tip is the window alone.
pub fn build_new_tip(
    prev_tip: &CheckPoint,
    agreement_pos: Option<usize>,
    blocks: &BlocksMap,
) -> (r: CheckPoint)
    requires
        prev_tip.wf(),
        blocks.wf(),
        agreement_pos matches Some(p) ==> p < prev_tip@.len(),
        agreement_pos is None ==> blocks.entries@.len() > 0,
    ensures
        r.wf(),
        agreement_pos matches Some(p) ==> r@.len() > p && r@.subrange(0, p + 1)
            == prev_tip@.subrange(0, p + 1),
        // soundness: everything past the kept prefix is a window block above
        // the agreement height
        forall|l: int|
            (match agreement_pos {
                Some(p) => p < l < r@.len(),
                None => 0 <= l < r@.len(),
            }) ==> blocks.has_pair(r@[l].height, r@[l].hash) && (
            agreement_pos matches Some(p) ==> r@[l].height > prev_tip@[p as int].height),
        // completeness: every window block above the agreement height is in
        // the new tip
        forall|j: int|
            0 <= j < blocks.entries@.len() && (match agreement_pos {
                Some(p) => blocks.entries@[j].0 > prev_tip@[p as int].height,
                None => true,
            }) ==> r@.contains(
                BlockId { height: blocks.entries@[j].0, hash: blocks.entries@[j].1 },
            ),
{
    let ghost agree_h: int = match agreement_pos {
        Some(p) => prev_tip@[p as int].height as int,
        None => -1,
    };
    let mut out: Vec<BlockId> = Vec::new();
    let tip_len = prev_tip.len();
    let agree_height: Option<u32> = match agreement_pos {
        Some(p) => {
            let mut j: usize = 0;
            while j <= p
                invariant
                    prev_tip.wf(),
                    tip_len == prev_tip@.len(),
                    p < tip_len,
                    j <= p + 1,
                    out@ == prev_tip@.subrange(0, j as int),
                decreases p + 1 - j,
            {
                out.push(prev_tip.block_at(j));
                proof {
                    assert(out@ =~= prev_tip@.subrange(0, j + 1));
                }
                j += 1;
            }
            Some(prev_tip.block_at(p).height)
        },
        None => None,
    };
    let ghost prefix_len: int = match agreement_pos {
        Some(p) => p + 1,
        None => 0,
    };
    proof {
        assert(out@.len() == prefix_len);
        if agreement_pos is Some {
            assert(out@ == prev_tip@.subrange(0, prefix_len));
            assert(out@.last() == prev_tip@[prefix_len - 1]);
            assert(out@.last().height == agree_h);
        }
    }
    let n = blocks.len();
    let mut i: usize = 0;
    while i < n
        invariant
            prev_tip.wf(),
            blocks.wf(),
            agreement_pos matches Some(p) ==> p < prev_tip@.len() && agree_h == prev_tip@[
                p as int
            ].height && prefix_len == p + 1,
            agreement_pos is None ==> agree_h == -1 && prefix_len == 0,
            agree_height == (match agreement_pos {
                Some(p) => Some(prev_tip@[p as int].height),
                None => None::<u32>,
            }),
            n == blocks.entries@.len(),
            i <= n,
            out@.len() >= prefix_len,
            out@.subrange(0, prefix_len) == (match agreement_pos {
                Some(p) => prev_tip@.subrange(0, p + 1),
                None => Seq::<BlockId>::empty(),
            }),
            forall|a: int, b: int| 0 <= a < b < out@.len() ==> out@[a].height < out@[b].height,
            out@.len() > 0 && prefix_len > 0 && out@.len() == prefix_len ==> out@.last().height
                == agree_h,
            forall|l: int|
                prefix_len <= l < out@.len() ==> blocks.has_pair(out@[l].height, out@[l].hash)
                    && out@[l].height > agree_h,
            out@.len() > prefix_len ==> (exists|j: int|
                0 <= j < i && out@.last() == (BlockId {
                    height: blocks.entries@[j].0,
                    hash: blocks.entries@[j].1,
                }) && out@.last().height == blocks.entries@[j].0),
            forall|j: int|
                0 <= j < i && blocks.entries@[j].0 > agree_h ==> out@.contains(
                    BlockId { height: blocks.entries@[j].0, hash: blocks.entries@[j].1 },
                ),
        decreases n - i,
    {
        let e = blocks.entry_at(i);
        let keep = match agree_height {
            Some(h) => e.0 > h,
            None => true,
        };
        if keep {
            let b = BlockId { height: e.0, hash: e.1 };
            let ghost pre = out@;
            proof {
                assert(blocks.entries@[i as int] == (e.0, e.1));
                if pre.len() > prefix_len {
                    let j = choose|j: int|
                        0 <= j < i && pre.last() == (BlockId {
                            height: blocks.entries@[j].0,
                            hash: blocks.entries@[j].1,
                        }) && pre.last().height == blocks.entries@[j].0;
                    assert(blocks.entries@[j].0 < blocks.entries@[i as int].0);
                    assert(pre.last().height < b.height);
                } else if pre.len() > 0 {
                    assert(pre.last().height == agree_h);
                    assert(b.height > agree_h);
                }
            }
            out.push(b);
            proof {
                assert(out@ == pre.push(b));
                assert(out@.subrange(0, prefix_len) =~= pre.subrange(0, prefix_len));
                assert forall|a: int, bb: int| 0 <= a < bb < out@.len() implies out@[a].height
                    < out@[bb].height by {
                    if bb < pre.len() {
                        assert(out@[a] == pre[a] && out@[bb] == pre[bb]);
                    } else {
                        assert(out@[bb] == b);
                        assert(out@[a] == pre[a]);
                        if a < pre.len() - 1 {
                            assert(pre[a].height < pre[pre.len() - 1].height);
                        }
                        assert(pre.last().height < b.height);
                    }
                }
                assert(blocks.has_pair(b.height, b.hash)) by {
                    assert(blocks.entries@[i as int] == (b.height, b.hash));
                }
                assert forall|j: int|
                    0 <= j < i + 1 && blocks.entries@[j].0 > agree_h implies out@.contains(
                    BlockId { height: blocks.entries@[j].0, hash: blocks.entries@[j].1 },
                ) by {
                    if j < i {
                        let bb = BlockId {
                            height: blocks.entries@[j].0,
                            hash: blocks.entries@[j].1,
                        };
                        assert(pre.contains(bb));
                        let l = choose|l: int| 0 <= l < pre.len() && pre[l] == bb;
                        assert(out@[l] == bb);
                    } else {
                        assert(out@.last() == (BlockId {
                            height: blocks.entries@[j].0,
                            hash: blocks.entries@[j].1,
                        }));
                    }
                }
            }
        } else {
            proof {
                assert(blocks.entries@[i as int].0 <= agree_h);
            }
        }
        i += 1;
    }
    proof {
        if agreement_pos is Some {
            assert(out@.len() > 0);
        } else {
            assert(blocks.entries@[0].0 > agree_h);
            assert(out@.contains(
                BlockId { height: blocks.entries@[0].0, hash: blocks.entries@[0].1 },
            ));
        }
    }
    let r = CheckPoint::from_blocks(out);
    proof {
        if agreement_pos is Some {
            assert(r@.subrange(0, prefix_len) == prev_tip@.subrange(0, prefix_len));
        }
    }
    r
}

/// Complete a chain update: give every anchor whose height lies at or below
/// the tip a checkpoint at that height, taking the hash from the window when
/// it has one and from the anchor itself (which was Merkle-verified against
/// its own header) otherwise.
///
/// Chain-update completeness: afterwards, every anchor of the update whose
/// height does not exceed the tip has a checkpoint at its height.
pub fn chain_update(
    tip: CheckPoint,
    latest_blocks: &BlocksMap,
    anchors: &Vec<(ConfirmationTimeHeightAnchor, Hash32)>,
) -> (r: CheckPoint)
    requires
        tip.wf(),
        latest_blocks.wf(),
    ensures
        r.wf(),
        r.spec_tip() == tip.spec_tip(),
        forall|b: BlockId| tip@.contains(b) ==> r@.contains(b),
        forall|i: int|
            0 <= i < anchors@.len() && anchors@[i].0.anchor_block.height
                <= tip.spec_tip().height ==> r.has_height(anchors@[i].0.anchor_block.height),
        // a height added beyond the caller's tip takes the window's hash
        // when the window has one, so reorged anchors cannot plant stale
        // hashes at heights the window covers
        forall|hh: u32, x: Hash32|
            latest_blocks.has_pair(hh, x) && r.has_height(hh) && !tip.has_height(hh)
                ==> r@.contains(BlockId { height: hh, hash: x }),
        // only anchor heights below the tip are ever added, each carrying
        // the window's hash when the window covers its height and a listed
        // anchor's own Merkle-verified block id otherwise
        forall|b: BlockId|
            r@.contains(b) && !tip@.contains(b) ==> !tip.has_height(b.height) && b.height
                < tip.spec_tip().height && (exists|i: int|
                0 <= i < anchors@.len() && anchors@[i].0.anchor_block.height == b.height) && (
            !latest_blocks.has_height(b.height) ==> exists|i: int|
                0 <= i < anchors@.len() && anchors@[i].0.anchor_block == b) && (
            latest_blocks.has_height(b.height) ==> latest_blocks.has_pair(b.height, b.hash)),
{
    let mut cur = tip;
    let ghost tip0 = cur;
    let n = anchors.len();
    let mut i: usize = 0;
    while i < n
        invariant
            latest_blocks.wf(),
            tip0.wf(),
            cur.wf(),
            n == anchors@.len(),
            i <= n,
            cur.spec_tip() == tip0.spec_tip(),
            forall|b: BlockId| tip0@.contains(b) ==> cur@.contains(b),
            forall|j: int|
                0 <= j < i && anchors@[j].0.anchor_block.height <= tip0.spec_tip().height
                    ==> cur.has_height(anchors@[j].0.anchor_block.height),
            forall|hh: u32, x: Hash32|
                latest_blocks.has_pair(hh, x) && cur.has_height(hh) && !tip0.has_height(hh)
                    ==> cur@.contains(BlockId { height: hh, hash: x }),
            forall|b: BlockId|
                cur@.contains(b) && !tip0@.contains(b) ==> !tip0.has_height(b.height) && b.height
                    < tip0.spec_tip().height && (exists|j: int|
                    0 <= j < i && anchors@[j].0.anchor_block.height == b.height) && (
                !latest_blocks.has_height(b.height) ==> exists|j: int|
                    0 <= j < i && anchors@[j].0.anchor_block == b) && (
                latest_blocks.has_height(b.height) ==> latest_blocks.has_pair(b.height, b.hash)),
        decreases n - i,
    {
        let ghost before = cur;
        let height = anchors[i].0.anchor_block.height;
        let existing = cur.get(height);
        if existing.is_none() && height <= cur.height() {
            let hash = match latest_blocks.get(height) {
                Some(h) => h,
                None => anchors[i].0.anchor_block.hash,
            };
            proof {
                assert(height < cur.spec_tip().height) by {
                    if height == cur.spec_tip().height {
                        assert(cur@.contains(cur.spec_tip()));
                        assert(cur.has_height(height));
                    }
                }
            }
            cur.insert(BlockId { height, hash });
            proof {
                assert(cur@.contains(BlockId { height, hash }));
                assert(cur.has_height(height)) by {
                    let l = choose|l: int|
                        0 <= l < cur@.len() && cur@[l] == (BlockId { height, hash });
                    assert(cur@[l].height == height);
                }
                assert(cur.spec_tip() == before.spec_tip());
                assert forall|b: BlockId| tip0@.contains(b) implies cur@.contains(b) by {
                    assert(before@.contains(b));
                }
                assert forall|j: int|
                    0 <= j < i && anchors@[j].0.anchor_block.height <= tip0.spec_tip().height
                    implies cur.has_height(anchors@[j].0.anchor_block.height) by {
                    let h2 = anchors@[j].0.anchor_block.height;
                    assert(before.has_height(h2));
                    let l = choose|l: int| 0 <= l < before@.len() && before@[l].height == h2;
                    assert(before@.contains(before@[l]));
                    assert(cur@.contains(before@[l]));
                    let l2 = choose|l2: int| 0 <= l2 < cur@.len() && cur@[l2] == before@[l];
                    assert(cur@[l2].height == h2);
                }
                assert forall|b: BlockId| cur@.contains(b) && !tip0@.contains(b) implies
                    !tip0.has_height(b.height) && b.height < tip0.spec_tip().height && (exists|
                    j: int|
                    0 <= j < i + 1 && anchors@[j].0.anchor_block.height == b.height) && (
                !latest_blocks.has_height(b.height) ==> exists|j: int|
                    0 <= j < i + 1 && anchors@[j].0.anchor_block == b) && (
                latest_blocks.has_height(b.height) ==> latest_blocks.has_pair(b.height, b.hash))
                by {
                    if b == (BlockId { height, hash }) {
                        assert(!tip0.has_height(height)) by {
                            if tip0.has_height(height) {
                                let l = choose|l: int|
                                    0 <= l < tip0@.len() && tip0@[l].height == height;
                                assert(before@.contains(tip0@[l]));
                                assert(before.has_height(height));
                            }
                        }
                        assert(anchors@[i as int].0.anchor_block.height == b.height);
                        if !latest_blocks.has_height(height) {
                            assert(anchors@[i as int].0.anchor_block == b);
                        }
                    } else {
                        assert(before@.contains(b));
                    }
                }
                assert forall|hh: u32, x: Hash32|
                    latest_blocks.has_pair(hh, x) && cur.has_height(hh) && !tip0.has_height(hh)
                    implies cur@.contains(BlockId { height: hh, hash: x }) by {
                    let l = choose|l: int| 0 <= l < cur@.len() && cur@[l].height == hh;
                    let b = cur@[l];
                    assert(cur@.contains(b));
                    if b == (BlockId { height, hash }) {
                        // this round's insertion: its hash came from the
                        // window when the window covers the height
                        assert(hh == height);
                        if latest_blocks.has_height(height) {
                            assert(latest_blocks.has_pair(height, hash));
                            lemma_blocks_map_unique(*latest_blocks, hh, x, hash);
                        } else {
                            assert(!latest_blocks.has_pair(hh, x));
                        }
                    } else {
                        assert(before@.contains(b));
                        assert(before.has_height(hh));
                        assert(before@.contains(BlockId { height: hh, hash: x }));
                        assert(cur@.contains(BlockId { height: hh, hash: x }));
                    }
                }
            }
        } else {
            proof {
                if existing is Some {
                    assert(cur.has_height(height)) by {
                        let b = existing->Some_0;
                        assert(cur@.contains(b));
                        let l = choose|l: int| 0 <= l < cur@.len() && cur@[l] == b;
                        assert(cur@[l].height == height);
                    }
                }
            }
        }
        i += 1;
    }
    cur
}

} // verus!
