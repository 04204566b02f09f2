//! Era-level products of consensus: finalized blocks and the era's closing
//! report of equivocators.

use vstd::prelude::*;

use crate::candidate::{CandidateBlock, ProtoBlock};
use crate::crypto::PublicKey;
use crate::Timestamp;

verus! {

/// The identifier of an era.
#[derive(Clone, Copy, PartialEq, Eq, Structural, Debug, Hash)]
pub struct EraId(pub u64);

/// What the last block of an era reports: the era's proven equivocators and
/// the rewards earned.
#[derive(Clone, PartialEq, Eq, Debug)]
pub struct EraEnd {
    pub equivocators: Vec<PublicKey>,
    pub rewards: Vec<(PublicKey, u64)>,
}

/// A block agreed on by consensus, ready for execution.
#[derive(Clone, PartialEq, Eq, Debug)]
pub struct FinalizedBlock {
    pub proto_block: ProtoBlock,
    pub timestamp: Timestamp,
    pub era_end: Option<EraEnd>,
    pub era_id: EraId,
    pub height: u64,
    pub proposer: PublicKey,
}

impl FinalizedBlock {
    pub fn new(
        proto_block: ProtoBlock,
        timestamp: Timestamp,
        era_end: Option<EraEnd>,
        era_id: EraId,
        height: u64,
        proposer: PublicKey,
    ) -> (r: FinalizedBlock)
        ensures
            r.proto_block == proto_block,
            r.timestamp == timestamp,
            r.era_end == era_end,
            r.era_id == era_id,
            r.height == height,
            r.proposer == proposer,
    {
        FinalizedBlock { proto_block, timestamp, era_end, era_id, height, proposer }
    }

    pub fn proto_block(&self) -> (r: &ProtoBlock)
        ensures
            r == self.proto_block,
    {
        &self.proto_block
    }

    pub fn timestamp(&self) -> (r: Timestamp)
        ensures
            r == self.timestamp,
    {
        self.timestamp
    }
}

/// Turns finalized candidate blocks into finalized era blocks: accusations
/// accumulate across the era and are reported as the era's equivocators in
/// its last block.
pub struct EraTracker {
    /// The era this tracker serves.
    pub era_id: EraId,
    /// The number of blocks the era runs for.
    pub era_length: u64,
    /// The height the next finalized block will get.
    pub next_height: u64,
    /// The accused validators seen so far in this era.
    pub accumulated: Vec<PublicKey>,
}

impl EraTracker {
    pub fn new(era_id: EraId, era_length: u64) -> (r: EraTracker)
        requires
            era_length >= 1,
        ensures
            r.era_id == era_id,
            r.era_length == era_length,
            r.next_height == 0,
            r.accumulated@ =~= Seq::<PublicKey>::empty(),
    {
        EraTracker { era_id, era_length, next_height: 0, accumulated: Vec::new() }
    }

    /// Finalizes one candidate block: its accusations join the era's
    /// accumulated equivocators, and the era's last block (by height)
    /// carries them all as the era-end report.  Blocks before the last carry
    /// no era end.
    pub fn finalize_block(&mut self, candidate: CandidateBlock, proposer: PublicKey) -> (r:
        FinalizedBlock)
        requires
            old(self).next_height < old(self).era_length,
            old(self).next_height < u64::MAX,
        ensures
            final(self).era_id == old(self).era_id,
            final(self).era_length == old(self).era_length,
            final(self).next_height == old(self).next_height + 1,
            final(self).accumulated@ =~= old(self).accumulated@ + candidate.accusations@,
            r.proto_block == candidate.proto_block,
            r.timestamp == candidate.timestamp,
            r.era_id == old(self).era_id,
            r.height == old(self).next_height,
            r.proposer == proposer,
            (old(self).next_height + 1 == old(self).era_length) <==> r.era_end is Some,
            r.era_end is Some ==> r.era_end.unwrap().equivocators@ =~= old(self).accumulated@
                + candidate.accusations@ && r.era_end.unwrap().rewards@ =~= Seq::<(
                PublicKey,
                u64,
            )>::empty(),
    {
        let CandidateBlock { proto_block, timestamp, accusations } = candidate;
        let n = accusations.len();
        let mut i: usize = 0;
        while i < n
            invariant
                0 <= i <= n,
                n == accusations@.len(),
                self.accumulated@ =~= old(self).accumulated@ + accusations@.subrange(
                    0,
                    i as int,
                ),
                self.era_id == old(self).era_id,
                self.era_length == old(self).era_length,
                self.next_height == old(self).next_height,
            decreases n - i,
        {
            self.accumulated.push(accusations[i]);
            proof {
                assert(accusations@.subrange(0, i + 1 as int) =~= accusations@.subrange(
                    0,
                    i as int,
                ) + seq![accusations@[i as int]]);
            }
            i = i + 1;
        }
        proof {
            assert(accusations@.subrange(0, n as int) =~= accusations@);
        }
        let height = self.next_height;
        self.next_height = self.next_height + 1;
        let era_end = if self.next_height == self.era_length {
            let mut equivocators: Vec<PublicKey> = Vec::new();
            let m = self.accumulated.len();
            let mut k: usize = 0;
            while k < m
                invariant
                    0 <= k <= m,
                    m == self.accumulated@.len(),
                    equivocators@ =~= self.accumulated@.subrange(0, k as int),
                decreases m - k,
            {
                equivocators.push(self.accumulated[k]);
                proof {
                    assert(self.accumulated@.subrange(0, k + 1 as int)
                        =~= self.accumulated@.subrange(0, k as int) + seq![
                        self.accumulated@[k as int],
                    ]);
                }
                k = k + 1;
            }
            proof {
                assert(self.accumulated@.subrange(0, m as int) =~= self.accumulated@);
            }
            Some(EraEnd { equivocators, rewards: Vec::new() })
        } else {
            None
        };
        FinalizedBlock {
            proto_block,
            timestamp,
            era_end,
            era_id: self.era_id,
            height,
            proposer,
        }
    }
}

} // verus!
