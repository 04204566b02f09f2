//! Vertices: the protocol messages exchanged between validators, and the
//! context attached to a block request.

use vstd::prelude::*;

use crate::endorsement::Endorsements;
use crate::evidence::Evidence;
use crate::unit::SignedWireUnit;
use crate::Timestamp;

verus! {

/// A protocol message: a signed unit, evidence of equivocation, or a batch
/// of endorsements.
#[derive(Clone, PartialEq, Eq, Debug)]
pub enum Vertex {
    Unit(SignedWireUnit),
    Evidence(Evidence),
    Endorsements(Endorsements),
}

/// A vertex that is valid by construction with respect to local state, ready
/// to gossip and to add to the protocol state.
#[derive(Clone, PartialEq, Eq, Debug)]
pub struct ValidVertex(pub Vertex);

/// What the external proposer is asked for: a consensus value for a block at
/// this timestamp and height.
#[derive(Clone, Copy, PartialEq, Eq, Structural, Debug)]
pub struct BlockContext {
    pub timestamp: Timestamp,
    pub height: u64,
}

impl BlockContext {
    pub fn new(timestamp: Timestamp, height: u64) -> (r: BlockContext)
        ensures
            r.timestamp == timestamp,
            r.height == height,
    {
        BlockContext { timestamp, height }
    }

    /// The timestamp the requested block is to be proposed at.
    pub fn timestamp(&self) -> (r: Timestamp)
        ensures
            r == self.timestamp,
    {
        self.timestamp
    }

    /// The height of the requested block.
    pub fn height(&self) -> (r: u64)
        ensures
            r == self.height,
    {
        self.height
    }
}

} // verus!
