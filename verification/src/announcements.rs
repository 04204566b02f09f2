//! Announcements: the engine's observer-facing notifications of new incoming
//! data or events, one enum per announcing component.

use vstd::prelude::*;

use crate::crypto::{PublicKey, Signature};
use crate::era::{EraId, FinalizedBlock};
use crate::linear_chain::Block;
use crate::Timestamp;

verus! {

/// A deploy, identified by its hash.
#[derive(Clone, Copy, PartialEq, Eq, Structural, Debug)]
pub struct Deploy {
    pub hash: u64,
}

impl Deploy {
    /// The deploy's identifier.
    pub fn id(&self) -> (r: u64)
        ensures
            r == self.hash,
    {
        self.hash
    }
}

/// Where a deploy arrived from.
#[derive(Clone, Copy, PartialEq, Eq, Structural, Debug)]
pub enum Source<I> {
    Peer(I),
    Client,
}

/// A gossiped public listening address.
#[derive(Clone, PartialEq, Eq, Debug)]
pub struct GossipedAddress {
    pub address: String,
}

/// A finality signature for a block.
#[derive(Clone, Copy, PartialEq, Eq, Structural, Debug)]
pub struct FinalitySignature {
    pub block_hash: u64,
    pub signature: Signature,
}

/// The announcement of a recognized upcoming upgrade.
#[derive(Clone, Copy, PartialEq, Eq, Structural, Debug)]
pub struct NextUpgrade {
    pub activation_point: u64,
}

/// Control announcements are handled directly by the runtime and usually
/// trigger a shutdown.
#[derive(Debug)]
#[must_use]
pub enum ControlAnnouncement {
    /// A component has encountered a fatal error and cannot continue.
    FatalError { file: String, line: u32, msg: String },
}

/// A networking layer announcement.
#[derive(Debug)]
#[must_use]
pub enum NetworkAnnouncement<I, P> {
    /// A payload message has been received from a peer.
    MessageReceived { sender: I, payload: P },
    /// Our public listening address should be gossiped across the network.
    GossipOurAddress(GossipedAddress),
    /// A new peer connection was established.
    NewPeer(I),
}

/// An RPC API server announcement.
#[derive(Debug)]
#[must_use]
pub enum RpcServerAnnouncement {
    /// A new deploy has been received from a client.
    DeployReceived { deploy: Deploy },
}

/// A deploy acceptor announcement.
#[derive(Debug)]
pub enum DeployAcceptorAnnouncement<I> {
    /// A deploy not previously stored on this node was accepted and stored.
    AcceptedNewDeploy { deploy: Deploy, source: Source<I> },
    /// An invalid deploy was received.
    InvalidDeploy { deploy: Deploy, source: Source<I> },
}

/// A consensus announcement.
#[derive(Debug)]
pub enum ConsensusAnnouncement<I> {
    /// A block was finalized.
    Finalized(FinalizedBlock),
    /// A finality signature was created.
    CreatedFinalitySignature(FinalitySignature),
    /// A linear chain block has been handled.
    Handled(Block),
    /// An equivocation has been detected.
    Fault { era_id: EraId, public_key: PublicKey, timestamp: Timestamp },
    /// This node wants to disconnect from a peer due to its transgressions.
    DisconnectFromPeer(I),
}

/// A block executor announcement.
#[derive(Debug)]
pub enum BlockExecutorAnnouncement {
    /// A new block of the linear chain was produced, with the result of each
    /// of its deploys.
    LinearChainBlock { block: Block, execution_results: Vec<(u64, bool)> },
}

/// A gossiper announcement.
#[derive(Debug)]
pub enum GossiperAnnouncement<T> {
    /// A new complete item of the gossiped kind has been received, carried
    /// by its identifier.
    NewCompleteItem(T),
}

/// A linear chain announcement.
#[derive(Debug)]
pub enum LinearChainAnnouncement {
    /// A new block was created and stored locally.
    BlockAdded(Block),
    /// A new finality signature was received.
    NewFinalitySignature(FinalitySignature),
}

/// A chainspec loader announcement.
#[derive(Debug)]
pub enum ChainspecLoaderAnnouncement {
    /// A new upgrade activation point was read.
    UpgradeActivationPointRead(NextUpgrade),
}

} // verus!
