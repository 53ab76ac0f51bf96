//! Block scheduling for the analysis pipeline: samples accumulate frame by
//! frame, and a spectral update fires once a full block has arrived.

use vstd::prelude::*;

verus! {

/// BlockCounter decides when enough samples have accumulated for the next
/// spectral update. Each arriving frame adds its length; when the running
/// count reaches `block_size` the counter fires and starts over from zero.
pub struct BlockCounter {
    block_size: usize,
    sample_count: usize,
}

impl BlockCounter {
    pub closed spec fn spec_block_size(self) -> usize {
        self.block_size
    }

    pub closed spec fn spec_sample_count(self) -> usize {
        self.sample_count
    }

    /// A fresh counter with nothing accumulated.
    pub fn new(block_size: usize) -> (r: BlockCounter)
        ensures
            r.spec_block_size() == block_size,
            r.spec_sample_count() == 0,
    {
        BlockCounter { block_size, sample_count: 0 }
    }

    pub fn block_size(&self) -> (r: usize)
        ensures
            r == self.spec_block_size(),
    {
        self.block_size
    }

    pub fn sample_count(&self) -> (r: usize)
        ensures
            r == self.spec_sample_count(),
    {
        self.sample_count
    }

    /// Accounts for a frame of `n` samples. Fires exactly when the
    /// accumulated count reaches the block size, and then resets; otherwise
    /// the count just grows by `n`.
    pub fn add(&mut self, n: usize) -> (ready: bool)
        requires
            old(self).spec_sample_count() + n <= usize::MAX,
        ensures
            final(self).spec_block_size() == old(self).spec_block_size(),
            ready == (old(self).spec_sample_count() + n >= old(self).spec_block_size()),
            final(self).spec_sample_count() == if ready {
                0int
            } else {
                old(self).spec_sample_count() + n
            },
    {
        self.sample_count = self.sample_count + n;
        if self.sample_count >= self.block_size {
            self.sample_count = 0;
            true
        } else {
            false
        }
    }
}

} // verus!
