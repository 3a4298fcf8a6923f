//! The client's running view of the best chain: a sequence of `(height,
//! hash)` checkpoints in strictly increasing height order, oldest first.

use vstd::prelude::*;

use crate::types::BlockId;

verus! {

/// A non-empty chain of checkpoints with strictly increasing heights. The
/// last element is the tip. Its view is the sequence of block ids from the
/// root to the tip.
#[derive(Clone, Debug)]
pub struct CheckPoint {
    blocks: Vec<BlockId>,
}

impl View for CheckPoint {
    type V = Seq<BlockId>;

    closed spec fn view(&self) -> Seq<BlockId> {
        self.blocks@
    }
}

impl CheckPoint {
    /// Non-empty, with strictly increasing heights from root to tip.
    pub open spec fn wf(self) -> bool {
        &&& self@.len() > 0
        &&& forall|i: int, j: int|
            0 <= i < j < self@.len() ==> self@[i].height < self@[j].height
    }

    /// The tip's block id.
    pub open spec fn spec_tip(self) -> BlockId {
        self@.last()
    }

    /// Whether some checkpoint in the chain sits at `height`.
    pub open spec fn has_height(self, height: u32) -> bool {
        exists|i: int| 0 <= i < self@.len() && self@[i].height == height
    }

    /// Start a new chain from a single block.
    pub fn new(block: BlockId) -> (r: CheckPoint)
        ensures
            r@ == seq![block],
            r.wf(),
    {
        CheckPoint { blocks: vec![block] }
    }

    /// Rebuild a chain from blocks already in ascending height order.
    pub fn from_blocks(blocks: Vec<BlockId>) -> (r: CheckPoint)
        requires
            blocks@.len() > 0,
            forall|i: int, j: int|
                0 <= i < j < blocks@.len() ==> blocks@[i].height < blocks@[j].height,
        ensures
            r@ == blocks@,
            r.wf(),
    {
        CheckPoint { blocks }
    }

    /// How many checkpoints the chain holds.
    pub fn len(&self) -> (r: usize)
        ensures
            r == self@.len(),
    {
        self.blocks.len()
    }

    /// The checkpoint at position `i`, root first.
    pub fn block_at(&self, i: usize) -> (r: BlockId)
        requires
            i < self@.len(),
        ensures
            r == self@[i as int],
    {
        self.blocks[i]
    }

    /// The tip's block id.
    pub fn tip(&self) -> (r: BlockId)
        requires
            self.wf(),
        ensures
            r == self.spec_tip(),
    {
        self.blocks[self.blocks.len() - 1]
    }

    /// The tip's height.
    pub fn height(&self) -> (r: u32)
        requires
            self.wf(),
        ensures
            r == self.spec_tip().height,
    {
        self.tip().height
    }

    /// The checkpoint at `height`, if one exists.
    pub fn get(&self, height: u32) -> (r: Option<BlockId>)
        requires
            self.wf(),
        ensures
            match r {
                Some(b) => self@.contains(b) && b.height == height,
                None => !self.has_height(height),
            },
    {
        let n = self.blocks.len();
        let mut i: usize = 0;
        while i < n
            invariant
                n == self@.len(),
                i <= n,
                forall|j: int| 0 <= j < i ==> self@[j].height != height,
            decreases n - i,
        {
            if self.blocks[i].height == height {
                let b = self.blocks[i];
                assert(self@.contains(b)) by {
                    assert(self@[i as int] == b);
                }
                return Some(b);
            }
            i += 1;
        }
        None
    }

    /// Extend the chain with a block above the current tip.
    pub fn push(&mut self, block: BlockId)
        requires
            old(self).wf(),
            block.height > old(self).spec_tip().height,
        ensures
            final(self)@ == old(self)@.push(block),
            final(self).wf(),
    {
        self.blocks.push(block);
    }

    /// Drop everything above position `pos`, making it the new tip.
    pub fn truncate_to(&mut self, pos: usize)
        requires
            old(self).wf(),
            pos < old(self)@.len(),
        ensures
            final(self)@ == old(self)@.subrange(0, pos + 1),
            final(self).wf(),
    {
        let n = self.blocks.len();
        assert(pos < n);
        self.blocks.truncate(pos + 1);
    }

    /// Splice a block in at its height. The chain must not already hold a
    /// checkpoint at that height.
    pub fn insert(&mut self, block: BlockId)
        requires
            old(self).wf(),
            !old(self).has_height(block.height),
        ensures
            final(self).wf(),
            final(self)@.len() == old(self)@.len() + 1,
            final(self)@.contains(block),
            forall|b: BlockId| old(self)@.contains(b) ==> final(self)@.contains(b),
            forall|b: BlockId|
                final(self)@.contains(b) ==> b == block || old(self)@.contains(b),
            final(self).spec_tip() == (if block.height > old(self).spec_tip().height {
                block
            } else {
                old(self).spec_tip()
            }),
    {
        let ghost pre = self.blocks@;
        let n = self.blocks.len();
        let mut i: usize = 0;
        while i < n && self.blocks[i].height < block.height
            invariant
                n == self.blocks@.len(),
                i <= n,
                forall|j: int| 0 <= j < i ==> self.blocks@[j].height < block.height,
                self.blocks@ == pre,
            decreases n - i,
        {
            i += 1;
        }
        proof {
            if i < n {
                assert(pre[i as int].height != block.height);
                assert(pre[i as int].height > block.height);
            }
        }
        self.blocks.insert(i, block);
        proof {
            let post = self.blocks@;
            assert(post == pre.insert(i as int, block));
            assert forall|a: int, b: int| 0 <= a < b < post.len() implies
                post[a].height < post[b].height
            by {
                if a < i && b < i {
                } else if a < i && b == i {
                } else if a < i && b > i {
                    assert(post[a] == pre[a]);
                    assert(post[b] == pre[b - 1]);
                    assert(pre[a].height < pre[b - 1].height);
                } else if a == i {
                    assert(post[b] == pre[b - 1]);
                    assert(pre[i as int].height <= pre[b - 1].height);
                } else {
                    assert(post[a] == pre[a - 1]);
                    assert(post[b] == pre[b - 1]);
                }
            }
            assert(post.contains(block)) by {
                assert(post[i as int] == block);
            }
            assert forall|bb: BlockId| pre.contains(bb) implies post.contains(bb) by {
                let j = choose|j: int| 0 <= j < pre.len() && pre[j] == bb;
                if j < i {
                    assert(post[j] == bb);
                } else {
                    assert(post[j + 1] == bb);
                }
            }
            assert forall|bb: BlockId| post.contains(bb) implies
                bb == block || pre.contains(bb)
            by {
                let j = choose|j: int| 0 <= j < post.len() && post[j] == bb;
                if j < i {
                    assert(pre[j] == bb);
                } else if j > i {
                    assert(pre[j - 1] == bb);
                }
            }
            if block.height > pre.last().height {
                assert(i == n) by {
                    if i < n {
                        assert(pre[i as int].height > block.height);
                        if i < n - 1 {
                            assert(pre[i as int].height < pre[n - 1].height);
                        }
                    }
                }
                assert(post.last() == block);
            } else {
                assert(pre[n - 1].height != block.height);
                assert(i < n) by {
                    if i == n {
                        assert(pre[n - 1].height < block.height);
                    }
                }
                assert(post.last() == pre[n - 1]);
            }
        }
    }
}

} // verus!
