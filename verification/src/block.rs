//! Requests for blocks, and the responses to them.
use vstd::prelude::*;

use crate::sequence;

verus! {

/// The block indices from `start_block` up to, but without, `end_block`.
#[derive(Clone, Copy, Debug, PartialEq, Eq)]
pub struct BlockRange {
    pub start_block: u64,
    pub end_block: u64,
}

impl BlockRange {
    /// The indices of the range in ascending order. A range that ends where it starts, or before,
    /// has none.
    pub open spec fn indices(self) -> Seq<u64> {
        if self.start_block < self.end_block {
            Seq::new(
                (self.end_block - self.start_block) as nat,
                |i: int| (self.start_block + i) as u64,
            )
        } else {
            Seq::empty()
        }
    }
}

/// The indices of all `ranges`, one range after the other. An index that lies in several ranges
/// occurs once for each of them.
pub open spec fn requested(ranges: Seq<BlockRange>) -> Seq<u64>
    decreases ranges.len(),
{
    if ranges.len() == 0 {
        Seq::empty()
    } else {
        ranges[0].indices() + requested(ranges.drop_first())
    }
}

/// A request for the blocks of some ranges.
#[derive(Debug, PartialEq, Eq)]
pub struct BlockRequest {
    pub ranges: Vec<BlockRange>,
}

impl BlockRequest {
    /// The indices that the request asks for, in the order in which it does.
    pub open spec fn indices(self) -> Seq<u64> {
        requested(self.ranges@)
    }
}

/// One block of a response. `T` is the type of its transaction outputs.
#[derive(Debug, PartialEq, Eq)]
pub struct Block<T> {
    pub index: u64,
    pub outputs: Vec<T>,
    pub global_txo_count: u64,
    pub timestamp: u64,
    pub timestamp_result_code: u32,
}

/// The answer to a request for blocks.
#[derive(Debug, PartialEq, Eq)]
pub struct BlockResponse<T> {
    pub num_blocks: u64,
    pub global_txo_count: u64,
    pub blocks: Vec<Block<T>>,
}

/// What a response says.
#[verifier::ext_equal]
pub struct BlockResponseView<T> {
    pub num_blocks: u64,
    pub global_txo_count: u64,
    pub blocks: Seq<Block<T>>,
}

impl<T> View for BlockResponse<T> {
    type V = BlockResponseView<T>;

    open spec fn view(&self) -> BlockResponseView<T> {
        BlockResponseView {
            num_blocks: self.num_blocks,
            global_txo_count: self.global_txo_count,
            blocks: self.blocks@,
        }
    }
}

impl<T> BlockResponseView<T> {
    /// The response after the search for another block, whose place is behind the blocks that are
    /// there. A block that was not found takes no place.
    pub open spec fn with<E>(self, found: Result<Block<T>, E>) -> BlockResponseView<T> {
        match found {
            Ok(block) => BlockResponseView { blocks: self.blocks.push(block), ..self },
            Err(_) => self,
        }
    }
}

/// The indices of a request that have not been dealt with yet.
pub struct IndexQueue {
    /// What is left of the range that is being walked through.
    current: BlockRange,
    /// The ranges after it, the next one last.
    later: Vec<BlockRange>,
}

impl View for IndexQueue {
    type V = Seq<u64>;

    closed spec fn view(&self) -> Seq<u64> {
        self.current.indices() + requested(self.later@.reverse())
    }
}

impl IndexQueue {
    /// Queues all indices of `request`.
    pub fn new(request: BlockRequest) -> (queue: IndexQueue)
        ensures
            queue@ == request.indices(),
    {
        let later = sequence::reversed(request.ranges);
        proof {
            sequence::lemma_reverse_twice(request.ranges@);
        }
        IndexQueue { current: BlockRange { start_block: 0, end_block: 0 }, later }
    }

    /// Takes the first index off the queue, if there is one.
    pub fn pop(&mut self) -> (index: Option<u64>)
        ensures
            match index {
                Some(index) => old(self)@.len() > 0 && index == old(self)@[0] && final(self)@
                    == old(self)@.drop_first(),
                None => old(self)@.len() == 0 && final(self)@.len() == 0,
            },
    {
        while self.current.start_block >= self.current.end_block
            invariant
                self@ == old(self)@,
            decreases self.later@.len(),
        {
            let ghost before = self.later@;
            match self.later.pop() {
                Some(range) => {
                    proof {
                        sequence::lemma_reverse_after_pop(before);
                    }
                    self.current = range;
                },
                None => {
                    return None;
                },
            }
        }
        let index: u64 = self.current.start_block;
        let ghost walked = self.current.indices();
        self.current.start_block = index + 1;
        proof {
            assert(self.current.indices() =~= walked.drop_first());
            assert(self@ =~= old(self)@.drop_first());
        }
        Some(index)
    }
}

} // verus!
