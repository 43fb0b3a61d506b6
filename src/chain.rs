//! The chain as the relay sees it: blocks, their transactions and the logs
//! that each transaction's receipt holds.
use vstd::prelude::*;

verus! {

/// One log entry of a transaction receipt.
pub struct Log {
    pub address: [u8; 20],
    pub topics: Vec<[u8; 32]>,
    pub data: Vec<u8>,
}

/// A transaction of a block, with the logs of its receipt.
pub struct Transaction {
    pub hash: [u8; 32],
    pub logs: Vec<Log>,
}

/// A block with its header fields that the relay reads.
pub struct Block {
    pub number: u64,
    pub hash: [u8; 32],
    pub state_root: [u8; 32],
    pub transactions: Vec<Transaction>,
}

/// A contiguous run of blocks: `ancestors` in chain order, then `tip`.
pub struct ChainSegment {
    pub ancestors: Vec<Block>,
    pub tip: Block,
}

/// A block number with its hash.
#[derive(Clone, Copy, Debug, PartialEq, Eq)]
pub struct HeightAck {
    pub number: u64,
    pub hash: [u8; 32],
}

/// The first and last block number of a segment.
#[derive(Clone, Copy, Debug, PartialEq, Eq)]
pub struct BlockRange {
    pub first: u64,
    pub last: u64,
}

/// What the host node reports of its canonical chain.
pub enum Notification {
    Committed { new: ChainSegment },
    Reorged { old: ChainSegment, new: ChainSegment },
    Reverted { old: ChainSegment },
}

impl ChainSegment {
    /// All blocks of the segment, oldest first.
    pub open spec fn blocks(self) -> Seq<Block> {
        self.ancestors@.push(self.tip)
    }

    pub open spec fn tip_ack(self) -> HeightAck {
        HeightAck { number: self.tip.number, hash: self.tip.hash }
    }

    pub open spec fn range(self) -> BlockRange {
        BlockRange { first: self.blocks()[0].number, last: self.tip.number }
    }

    /// The segment whose last block is the last of `blocks`.
    pub fn from_blocks(blocks: Vec<Block>) -> (r: Option<ChainSegment>)
        ensures
            blocks@.len() == 0 <==> r is None,
            r matches Some(s) ==> s.blocks() == blocks@,
    {
        let mut ancestors = blocks;
        match ancestors.pop() {
            Some(tip) => {
                let s = ChainSegment { ancestors, tip };
                assert(s.blocks() =~= blocks@);
                Some(s)
            },
            None => None,
        }
    }

    /// The height acknowledgment for the tip.
    pub fn tip_height(&self) -> (r: HeightAck)
        ensures
            r == self.tip_ack(),
    {
        HeightAck { number: self.tip.number, hash: self.tip.hash }
    }

    /// The block numbers of the first and the last block.
    pub fn block_range(&self) -> (r: BlockRange)
        ensures
            r == self.range(),
    {
        let first = if self.ancestors.len() == 0 {
            self.tip.number
        } else {
            self.ancestors[0].number
        };
        BlockRange { first, last: self.tip.number }
    }

    /// The state root of the tip: the commitment that is anchored.
    pub fn commitment(&self) -> (r: [u8; 32])
        ensures
            r == self.tip.state_root,
    {
        self.tip.state_root
    }
}

} // verus!
