//! The reorg-resilient block emitter: a state machine that walks the node's
//! best chain block-by-block, resuming from a checkpoint chain, plus the
//! deduplicating mempool filter.
//!
//! The machine never performs I/O itself. Each step either asks its driver
//! to perform one node call (`EmitterAction`) or reports an outcome; the
//! driver feeds the node's answer back through the matching `on_*` method.

use vstd::pervasive::unreached;
use vstd::prelude::*;

use crate::checkpoint::CheckPoint;
use crate::types::{BlockId, BlockInfo, Hash32, MempoolEntry};

verus! {

/// What the poll state machine asks its driver to do next.
#[derive(Clone, Copy, PartialEq, Eq, Debug)]
pub enum EmitterAction {
    /// Resolve a height to a block hash via the node.
    FetchBlockHash { height: u32 },
    /// Fetch the node's metadata for this block hash.
    FetchBlockInfo { hash: Hash32 },
    /// Fetch the block (or header) itself; it is about to be emitted.
    FetchItem { height: u32, hash: Hash32 },
    /// Caught up: nothing to emit above the current view.
    Finished,
}

/// Where the poll machine stands between steps: which answer it awaits.
#[derive(Clone, Copy, Debug)]
pub enum PollPhase {
    /// Not polling; `begin_poll` may start a round.
    Idle,
    /// Awaiting the hash at `start_height` (fresh start).
    AwaitBlockHash,
    /// Awaiting metadata of the fresh-start block.
    AwaitStartInfo,
    /// Awaiting metadata of the cached block's successor.
    AwaitNextInfo,
    /// Awaiting metadata of the checkpoint at position `pos` (agreement walk).
    AwaitWalkInfo { pos: usize },
    /// Awaiting the block or header itself; `info` is its metadata.
    AwaitItem { info: BlockInfo },
}

/// The block emitter's state.
pub struct Emitter {
    /// The height emission starts from when no checkpoint survives.
    pub start_height: u32,
    /// The emitter's own running chain view; its tip is the last emitted
    /// block still believed to be in the best chain.
    pub last_cp: Option<CheckPoint>,
    /// Metadata of the last emitted block; `None` whenever the next call
    /// must re-discover the starting point.
    pub last_block: Option<BlockInfo>,
    /// The latest first-seen timestamp over all previously emitted mempool
    /// transactions.
    pub last_mempool_time: u64,
    /// The height of `last_cp` at the end of the previous mempool pass.
    pub last_mempool_tip: Option<u32>,
    /// Which answer the poll machine awaits.
    pub phase: PollPhase,
}

/// The mempool bookkeeping of `a` and `b` agrees.
pub open spec fn mempool_state_unchanged(a: Emitter, b: Emitter) -> bool {
    a.last_mempool_time == b.last_mempool_time && a.last_mempool_tip == b.last_mempool_tip
}

impl Emitter {
    /// The machine's standing invariant: the chain view is well formed, a
    /// cached block implies a checkpoint exists, and each phase carries the
    /// facts the next step relies on.
    pub open spec fn wf(self) -> bool {
        &&& (self.last_cp matches Some(cp) ==> cp.wf())
        &&& (self.last_block is Some ==> self.last_cp is Some)
        &&& (self.phase is AwaitBlockHash ==> self.last_cp is None && self.last_block is None)
        &&& (self.phase is AwaitStartInfo ==> self.last_cp is None && self.last_block is None)
        &&& (self.phase is AwaitNextInfo ==> self.last_block is Some)
        &&& (self.phase matches PollPhase::AwaitWalkInfo { pos } ==> self.last_block is None
            && (self.last_cp matches Some(cp) && pos < cp@.len()))
        &&& (self.phase matches PollPhase::AwaitItem { info } ==> (self.last_cp matches Some(cp)
            ==> info.height > cp.spec_tip().height) && (self.last_cp is None
            && info.previous_block_hash is Some ==> info.height >= 1))
    }

    /// Start emitting from `start_height`, with no prior chain view.
    pub fn from_height(start_height: u32) -> (r: Emitter)
        ensures
            r.wf(),
            r.start_height == start_height,
            r.last_cp is None,
            r.last_block is None,
            r.last_mempool_time == 0,
            r.last_mempool_tip is None,
            r.phase is Idle,
    {
        Emitter {
            start_height,
            last_cp: None,
            last_block: None,
            last_mempool_time: 0,
            last_mempool_tip: None,
            phase: PollPhase::Idle,
        }
    }

    /// Resume emitting right above the latest block of `checkpoint` that is
    /// still in the best chain.
    pub fn from_checkpoint(checkpoint: CheckPoint) -> (r: Emitter)
        requires
            checkpoint.wf(),
        ensures
            r.wf(),
            r.start_height == 0,
            r.last_cp == Some(checkpoint),
            r.last_block is None,
            r.last_mempool_time == 0,
            r.last_mempool_tip is None,
            r.phase is Idle,
    {
        Emitter {
            start_height: 0,
            last_cp: Some(checkpoint),
            last_block: None,
            last_mempool_time: 0,
            last_mempool_tip: None,
            phase: PollPhase::Idle,
        }
    }

    /// Start one poll round. When the emitter is caught up (its cached block
    /// has no successor) this returns `Finished` at once and leaves the chain
    /// view unchanged, so repeated polls at an unchanged node keep returning
    /// nothing.
    pub fn begin_poll(&mut self) -> (r: EmitterAction)
        requires
            old(self).wf(),
            old(self).phase is Idle,
        ensures
            final(self).wf(),
            final(self).start_height == old(self).start_height,
            mempool_state_unchanged(*old(self), *final(self)),
            old(self).last_block matches Some(lb) && lb.next_block_hash is None ==> (
                r is Finished
                && final(self).last_block is None
                && final(self).last_cp == old(self).last_cp
                && final(self).phase is Idle
            ),
            old(self).last_block matches Some(lb) ==> (lb.next_block_hash matches Some(h) ==> (
                r == (EmitterAction::FetchBlockInfo { hash: h })
                && final(self).last_block == old(self).last_block
                && final(self).last_cp == old(self).last_cp
                && final(self).phase is AwaitNextInfo
            )),
            old(self).last_block is None && old(self).last_cp is None ==> (
                r == (EmitterAction::FetchBlockHash { height: old(self).start_height })
                && final(self).last_block is None
                && final(self).last_cp is None
                && final(self).phase is AwaitBlockHash
            ),
            old(self).last_cp matches Some(cp) ==> (old(self).last_block is None ==> (
                r == (EmitterAction::FetchBlockInfo { hash: cp.spec_tip().hash })
                && final(self).last_block is None
                && final(self).last_cp == old(self).last_cp
                && final(self).phase == (PollPhase::AwaitWalkInfo {
                    pos: (cp@.len() - 1) as usize,
                })
            )),
    {
        let lb = self.last_block;
        match lb {
            Some(info) => {
                match info.next_block_hash {
                    None => {
                        self.last_block = None;
                        EmitterAction::Finished
                    },
                    Some(h) => {
                        self.phase = PollPhase::AwaitNextInfo;
                        EmitterAction::FetchBlockInfo { hash: h }
                    },
                }
            },
            None => {
                let walk = match &self.last_cp {
                    None => None,
                    Some(cp) => Some((cp.len() - 1, cp.tip().hash)),
                };
                match walk {
                    None => {
                        self.phase = PollPhase::AwaitBlockHash;
                        EmitterAction::FetchBlockHash { height: self.start_height }
                    },
                    Some((pos, hash)) => {
                        self.phase = PollPhase::AwaitWalkInfo { pos };
                        EmitterAction::FetchBlockInfo { hash }
                    },
                }
            },
        }
    }

    /// Feed back the hash the node resolved `start_height` to.
    pub fn on_block_hash(&mut self, hash: Hash32) -> (r: EmitterAction)
        requires
            old(self).wf(),
            old(self).phase is AwaitBlockHash,
        ensures
            final(self).wf(),
            r == (EmitterAction::FetchBlockInfo { hash }),
            *final(self) == (Emitter { phase: PollPhase::AwaitStartInfo, ..*old(self) }),
    {
        self.phase = PollPhase::AwaitStartInfo;
        EmitterAction::FetchBlockInfo { hash }
    }

    /// Feed back the node's metadata for the block the machine asked about.
    ///
    /// A non-negative confirmation count classifies the block as in the best
    /// chain; a negative one as reorged out. The structural preconditions
    /// mirror the checkpoint-chain invariant: a block emitted on top of an
    /// existing view must lie strictly above its tip.
    pub fn on_block_info(&mut self, info: BlockInfo) -> (r: EmitterAction)
        requires
            old(self).wf(),
            old(self).phase is AwaitStartInfo || old(self).phase is AwaitNextInfo || old(self).phase matches PollPhase::AwaitWalkInfo { .. },
            old(self).phase is AwaitNextInfo && info.confirmations >= 0 ==> (old(self).last_cp matches Some(cp) && info.height > cp.spec_tip().height),
            old(self).phase is AwaitStartInfo && info.confirmations >= 0
                && info.previous_block_hash is Some ==> info.height >= 1,
        ensures
            final(self).wf(),
            final(self).last_mempool_time == old(self).last_mempool_time,
            // the block is in the best chain: fetch it, emission is next
            (old(self).phase is AwaitStartInfo || old(self).phase is AwaitNextInfo)
                && info.confirmations >= 0 ==> (
                r == (EmitterAction::FetchItem { height: info.height, hash: info.hash })
                && final(self).phase == (PollPhase::AwaitItem { info })
                && final(self).last_cp == old(self).last_cp
                && final(self).last_block == old(self).last_block
                && final(self).start_height == old(self).start_height
                && mempool_state_unchanged(*old(self), *final(self))
            ),
            // fresh-start block was reorged out: retry from start_height
            old(self).phase is AwaitStartInfo && info.confirmations < 0 ==> (
                r == (EmitterAction::FetchBlockHash { height: old(self).start_height })
                && *final(self) == (Emitter { phase: PollPhase::AwaitBlockHash, ..*old(self) })
            ),
            // successor reorged out: drop the cache, walk the checkpoints
            old(self).last_cp matches Some(cp) ==> (old(self).phase is AwaitNextInfo
                && info.confirmations < 0 ==> (
                r == (EmitterAction::FetchBlockInfo { hash: cp.spec_tip().hash })
                && final(self).last_block is None
                && final(self).last_cp == old(self).last_cp
                && final(self).phase == (PollPhase::AwaitWalkInfo {
                    pos: (cp@.len() - 1) as usize,
                })
                && final(self).start_height == old(self).start_height
                && mempool_state_unchanged(*old(self), *final(self))
            )),
            // walked checkpoint reorged out: step down, or restart from the
            // old tip height when the walk is exhausted
            old(self).phase matches PollPhase::AwaitWalkInfo { pos } ==> (
                old(self).last_cp matches Some(cp) ==> (info.confirmations < 0 ==> (
                (if pos > 0 {
                    r == (EmitterAction::FetchBlockInfo { hash: cp@[pos - 1].hash })
                    && final(self).last_cp == old(self).last_cp
                    && final(self).last_block is None
                    && final(self).phase == (PollPhase::AwaitWalkInfo {
                        pos: (pos - 1) as usize,
                    })
                    && final(self).start_height == old(self).start_height
                } else {
                    r == (EmitterAction::FetchBlockHash { height: cp.spec_tip().height })
                    && final(self).last_cp is None
                    && final(self).last_block is None
                    && final(self).phase is AwaitBlockHash
                    && final(self).start_height == cp.spec_tip().height
                })
                && mempool_state_unchanged(*old(self), *final(self))
            ))),
            // agreement found: truncate to the agreeing checkpoint, lower the
            // mempool tip if it is above the agreement height, and continue
            // from the agreement block's successor
            old(self).phase matches PollPhase::AwaitWalkInfo { pos } ==> (
                old(self).last_cp matches Some(cp) ==> (info.confirmations >= 0 ==> (
                (final(self).last_cp matches Some(cp2) && cp2@ == cp@.subrange(0, pos + 1))
                && final(self).last_mempool_tip == (match old(self).last_mempool_tip {
                    Some(h) => Some(if h > info.height { info.height } else { h }),
                    None => None::<u32>,
                })
                && final(self).last_mempool_time == old(self).last_mempool_time
                && final(self).start_height == old(self).start_height
                && (match info.next_block_hash {
                    None => r is Finished && final(self).last_block is None && final(self).phase
                        is Idle,
                    Some(h) => r == (EmitterAction::FetchBlockInfo { hash: h })
                        && final(self).last_block == Some(info)
                        && final(self).phase is AwaitNextInfo,
                })
            ))),
    {
        let in_walk = matches!(&self.phase, PollPhase::AwaitWalkInfo { .. });
        if !in_walk {
            if info.confirmations >= 0 {
                self.phase = PollPhase::AwaitItem { info };
                return EmitterAction::FetchItem { height: info.height, hash: info.hash };
            }
            if matches!(&self.phase, PollPhase::AwaitStartInfo) {
                self.phase = PollPhase::AwaitBlockHash;
                return EmitterAction::FetchBlockHash { height: self.start_height };
            }
            // successor not in best chain: re-enter through the walk
            self.last_block = None;
            let (pos, hash) = match &self.last_cp {
                Some(cp) => (cp.len() - 1, cp.tip().hash),
                None => unreached(),
            };
            self.phase = PollPhase::AwaitWalkInfo { pos };
            return EmitterAction::FetchBlockInfo { hash };
        }
        let pos = match &self.phase {
            PollPhase::AwaitWalkInfo { pos } => *pos,
            _ => unreached(),
        };
        if info.confirmations < 0 {
            if pos > 0 {
                let hash = match &self.last_cp {
                    Some(cp) => cp.block_at(pos - 1).hash,
                    None => unreached(),
                };
                self.phase = PollPhase::AwaitWalkInfo { pos: pos - 1 };
                return EmitterAction::FetchBlockInfo { hash };
            }
            // no checkpoint survives: restart so the caller's next merge can
            // replace the oldest disagreeing checkpoint
            let tip_height = match &self.last_cp {
                Some(cp) => cp.height(),
                None => unreached(),
            };
            self.start_height = tip_height;
            self.last_cp = None;
            self.last_block = None;
            self.phase = PollPhase::AwaitBlockHash;
            return EmitterAction::FetchBlockHash { height: tip_height };
        }
        // agreement found
        match &mut self.last_cp {
            Some(cp) => cp.truncate_to(pos),
            None => unreached(),
        };
        if let Some(h) = self.last_mempool_tip {
            if h > info.height {
                self.last_mempool_tip = Some(info.height);
            }
        }
        match info.next_block_hash {
            None => {
                self.last_block = None;
                self.phase = PollPhase::Idle;
                EmitterAction::Finished
            },
            Some(h) => {
                self.last_block = Some(info);
                self.phase = PollPhase::AwaitNextInfo;
                EmitterAction::FetchBlockInfo { hash: h }
            },
        }
    }

    /// Commit the emission after the driver fetched the block or header. The
    /// chain view is extended to end exactly at the emitted block: pushed on
    /// an existing view, or seeded (together with one prior checkpoint when
    /// the block names a parent) on an empty one.
    pub fn on_item_fetched(&mut self) -> (height: u32)
        requires
            old(self).wf(),
            old(self).phase matches PollPhase::AwaitItem { .. },
        ensures
            final(self).wf(),
            old(self).phase matches PollPhase::AwaitItem { info } ==> (height == info.height
                && final(self).last_block == Some(info) && final(self).phase is Idle && final(self).start_height == old(self).start_height && mempool_state_unchanged(
                *old(self),
                *final(self),
            ) && (final(self).last_cp matches Some(cp2) && cp2.wf() && cp2.spec_tip()
                == info.block_id() && (match old(self).last_cp {
                Some(cp) => cp2@ == cp@.push(info.block_id()),
                None => (match info.previous_block_hash {
                    Some(p) => cp2@ == seq![
                        BlockId { height: (info.height - 1) as u32, hash: p },
                        info.block_id(),
                    ],
                    None => cp2@ == seq![info.block_id()],
                }),
            }))),
    {
        let info = match &self.phase {
            PollPhase::AwaitItem { info } => *info,
            _ => unreached(),
        };
        let blk = BlockId { height: info.height, hash: info.hash };
        let cur = self.last_cp.take();
        let new_cp = match cur {
            Some(mut cp) => {
                cp.push(blk);
                cp
            },
            None => {
                match info.previous_block_hash {
                    Some(p) => {
                        let mut cp = CheckPoint::new(
                            BlockId { height: info.height - 1, hash: p },
                        );
                        cp.push(blk);
                        cp
                    },
                    None => CheckPoint::new(blk),
                }
            },
        };
        self.last_cp = Some(new_cp);
        self.last_block = Some(info);
        self.phase = PollPhase::Idle;
        info.height
    }

    /// The height below which mempool entries count as already covered by
    /// emitted blocks: the tip of the previous mempool pass, or one below
    /// `start_height` when no pass has happened.
    pub open spec fn spec_prev_mempool_tip(self) -> u64 {
        match self.last_mempool_tip {
            Some(h) => h as u64,
            None => if self.start_height == 0 {
                0
            } else {
                (self.start_height - 1) as u64
            },
        }
    }

    /// A mempool entry is emitted unless it was both seen no later than the
    /// previous pass and entered the mempool at a height the block emitter
    /// has already covered.
    pub open spec fn mempool_should_emit(self, e: MempoolEntry) -> bool {
        !(e.time <= self.last_mempool_time && e.height <= self.spec_prev_mempool_tip())
    }

    /// Decide which verbose-mempool entries to emit, in input order, and the
    /// latest first-seen time over the previous passes and this snapshot.
    pub fn mempool_to_emit(&self, entries: &Vec<MempoolEntry>) -> (r: (Vec<MempoolEntry>, u64))
        ensures
            r.0@ == entries@.filter(|e: MempoolEntry| self.mempool_should_emit(e)),
            r.1 >= self.last_mempool_time,
            forall|i: int| 0 <= i < entries@.len() ==> entries@[i].time <= r.1,
            r.1 == self.last_mempool_time || exists|i: int|
                0 <= i < entries@.len() && entries@[i].time == r.1,
    {
        let prev_tip: u64 = match self.last_mempool_tip {
            Some(h) => h as u64,
            None => if self.start_height == 0 {
                0
            } else {
                (self.start_height - 1) as u64
            },
        };
        assert(prev_tip == self.spec_prev_mempool_tip());
        let mut latest: u64 = self.last_mempool_time;
        let mut out: Vec<MempoolEntry> = Vec::new();
        let n = entries.len();
        let mut i: usize = 0;
        while i < n
            invariant
                n == entries@.len(),
                i <= n,
                prev_tip == self.spec_prev_mempool_tip(),
                out@ == entries@.subrange(0, i as int).filter(
                    |e: MempoolEntry| self.mempool_should_emit(e),
                ),
                latest >= self.last_mempool_time,
                forall|j: int| 0 <= j < i ==> entries@[j].time <= latest,
                latest == self.last_mempool_time || exists|j: int|
                    0 <= j < i && entries@[j].time == latest,
            decreases n - i,
        {
            let e = entries[i];
            if e.time > latest {
                latest = e.time;
            }
            let already = e.time <= self.last_mempool_time && e.height <= prev_tip;
            proof {
                let pre = entries@.subrange(0, i as int);
                let s2 = entries@.subrange(0, i + 1);
                assert(s2 =~= pre.push(e));
                reveal(Seq::filter);
                assert(pre.push(e).drop_last() =~= pre);
                assert(pre.push(e).last() == e);
            }
            if !already {
                out.push(e);
            }
            i += 1;
        }
        assert(entries@.subrange(0, n as int) =~= entries@);
        (out, latest)
    }

    /// Commit a mempool pass: record the latest first-seen time and the
    /// height of the emitter's chain view at the end of the pass.
    pub fn mempool_commit(&mut self, latest_time: u64)
        requires
            old(self).wf(),
        ensures
            final(self).wf(),
            final(self).last_mempool_time == latest_time,
            final(self).last_mempool_tip == (match old(self).last_cp {
                Some(cp) => Some(cp.spec_tip().height),
                None => None::<u32>,
            }),
            final(self).start_height == old(self).start_height,
            final(self).last_cp == old(self).last_cp,
            final(self).last_block == old(self).last_block,
            final(self).phase == old(self).phase,
    {
        self.last_mempool_time = latest_time;
        self.last_mempool_tip = match &self.last_cp {
            Some(cp) => Some(cp.height()),
            None => None,
        };
    }
}

/// Mempool de-duplication. `mempool_to_emit` guarantees that the committed
/// latest-seen time covers every entry of its snapshot; so once a pass has
/// seen an entry and committed, a later pass re-emits that entry (with the
/// same first-seen time) only if its mempool entry height lies above the
/// later pass's previous tip — that is, only if a reorg has moved the
/// covering blocks out from under it. An entry re-seen with a fresh
/// first-seen time is a new arrival, not a duplicate.
pub proof fn lemma_mempool_dedup(
    second: Emitter,
    entries: Seq<MempoolEntry>,
    e: MempoolEntry,
    committed_time: u64,
)
    requires
        // the first pass's snapshot held `e`, and it committed a time that
        // covers the whole snapshot
        entries.contains(e),
        forall|i: int| 0 <= i < entries.len() ==> entries[i].time <= committed_time,
        second.last_mempool_time == committed_time,
        // yet the later pass emits `e` again
        second.mempool_should_emit(e),
    ensures
        e.height > second.spec_prev_mempool_tip(),
{
    let i = choose|i: int| 0 <= i < entries.len() && entries[i] == e;
    assert(entries[i].time <= committed_time);
}

} // verus!
