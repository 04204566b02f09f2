//! The linear chain component's decision logic: what to do with each linear
//! chain event.  Storage, networking and signing are actions handed back to
//! the host runtime.

use vstd::prelude::*;

use crate::crypto::Signature;

verus! {

/// A block of the linear chain, as this component tracks it.
#[derive(Clone, PartialEq, Eq, Debug)]
pub struct Block {
    pub hash: u64,
    pub height: u64,
    pub proofs: Vec<Signature>,
}

impl Block {
    pub fn new(hash: u64, height: u64) -> (r: Block)
        ensures
            r.hash == hash,
            r.height == height,
            r.proofs@ =~= Seq::<Signature>::empty(),
    {
        Block { hash, height, proofs: Vec::new() }
    }

    /// Appends a finality proof to the block.
    pub fn append_proof(&mut self, proof: Signature)
        ensures
            final(self).hash == old(self).hash,
            final(self).height == old(self).height,
            final(self).proofs@ =~= old(self).proofs@.push(proof),
    {
        self.proofs.push(proof);
    }

    /// An element-wise copy of the block.
    pub fn duplicate(&self) -> (r: Block)
        ensures
            r.hash == self.hash,
            r.height == self.height,
            r.proofs@ == self.proofs@,
    {
        let n = self.proofs.len();
        let mut proofs: Vec<Signature> = Vec::with_capacity(n);
        let mut i: usize = 0;
        while i < n
            invariant
                0 <= i <= n,
                n == self.proofs@.len(),
                proofs@ =~= self.proofs@.subrange(0, i as int),
            decreases n - i,
        {
            proofs.push(self.proofs[i]);
            proof {
                assert(self.proofs@.subrange(0, i + 1 as int) =~= self.proofs@.subrange(
                    0,
                    i as int,
                ) + seq![self.proofs@[i as int]]);
            }
            i = i + 1;
        }
        proof {
            assert(self.proofs@.subrange(0, n as int) =~= self.proofs@);
        }
        Block { hash: self.hash, height: self.height, proofs }
    }
}

/// A linear chain request issued by another node in the network.
#[derive(Clone, PartialEq, Eq, Debug)]
pub enum LinearChainRequest<I> {
    /// A peer asks for the block with this hash.
    BlockRequest(u64, I),
    /// The last finalized block is asked for.
    LastFinalizedBlock,
}

/// An event the linear chain component reacts to.
#[derive(Clone, PartialEq, Eq, Debug)]
pub enum Event<I> {
    /// A linear chain request issued by another node in the network.
    Request(LinearChainRequest<I>),
    /// A new linear chain block has been produced.
    LinearChainBlock(Block),
    /// The storage lookup a `BlockRequest` asked for has completed.
    GetBlockResult(u64, Option<Block>, I),
    /// A new finality signature arrived for the block with this hash.
    NewFinalitySignature(u64, Signature),
    /// A block has been put to storage.
    PutBlockResult(Block),
}

/// What the host runtime must do for the linear chain component.
#[derive(Clone, PartialEq, Eq, Debug)]
pub enum Action<I> {
    /// Fetch the block with this hash from storage for this requester.
    GetBlock(u64, I),
    /// Answer the last-finalized-block request with this block.
    RespondLastFinalized(Option<Block>),
    /// Send the block to the peer that asked for it.
    SendBlock(I, Block),
    /// Put the block to storage.
    PutBlock(Block),
    /// Create this node's finality signature for the stored block.
    RequestFinalitySignature(u64),
    /// Append the signature to the stored block and store it again.
    StoreSignature(u64, Signature),
}

/// The linear chain component: tracks the last block put to storage,
/// presumably the last block of the linear chain.
#[derive(Debug)]
pub struct LinearChain {
    pub last_block: Option<Block>,
}

impl LinearChain {
    /// Creates the component with no block seen yet.
    pub fn new() -> (r: LinearChain)
        ensures
            r.last_block is None,
    {
        LinearChain { last_block: None }
    }

    /// The decision logic for one event: the returned actions are performed
    /// by the host runtime, whose completions re-enter as further events.
    pub fn handle_event<I>(&mut self, event: Event<I>) -> (r: Vec<Action<I>>)
        ensures
            r@.len() <= 1,
            match event {
                Event::Request(req) => *final(self) == *old(self) && match req {
                    LinearChainRequest::BlockRequest(h, peer) => r@.len() == 1 && r@[0]
                        == Action::GetBlock(h, peer),
                    LinearChainRequest::LastFinalizedBlock => r@.len() == 1 && match r@[0] {
                        Action::RespondLastFinalized(b) => match (b, old(self).last_block) {
                            (Some(rb), Some(lb)) => rb.hash == lb.hash && rb.height == lb.height
                                && rb.proofs@ == lb.proofs@,
                            (None, None) => true,
                            _ => false,
                        },
                        _ => false,
                    },
                },
                Event::LinearChainBlock(b) => *final(self) == *old(self) && r@.len() == 1
                    && r@[0] == Action::<I>::PutBlock(b),
                Event::GetBlockResult(h, found, peer) => *final(self) == *old(self) && match found {
                    Some(b) => r@.len() == 1 && r@[0] == Action::SendBlock(peer, b),
                    None => r@.len() == 0,
                },
                Event::NewFinalitySignature(h, sig) => *final(self) == *old(self) && r@.len()
                    == 1 && r@[0] == Action::<I>::StoreSignature(h, sig),
                Event::PutBlockResult(b) => final(self).last_block == Some(b) && r@.len() == 1
                    && r@[0] == Action::<I>::RequestFinalitySignature(b.hash),
            },
    {
        let mut out: Vec<Action<I>> = Vec::new();
        match event {
            Event::Request(LinearChainRequest::BlockRequest(h, peer)) => {
                out.push(Action::GetBlock(h, peer));
            },
            Event::Request(LinearChainRequest::LastFinalizedBlock) => {
                let answer = match &self.last_block {
                    Some(b) => Some(b.duplicate()),
                    None => None,
                };
                out.push(Action::RespondLastFinalized(answer));
            },
            Event::LinearChainBlock(b) => {
                out.push(Action::PutBlock(b));
            },
            Event::GetBlockResult(_h, found, peer) => {
                match found {
                    Some(b) => {
                        out.push(Action::SendBlock(peer, b));
                    },
                    None => {},
                }
            },
            Event::NewFinalitySignature(h, sig) => {
                out.push(Action::StoreSignature(h, sig));
            },
            Event::PutBlockResult(b) => {
                let h = b.hash;
                self.last_block = Some(b);
                out.push(Action::RequestFinalitySignature(h));
            },
        }
        out
    }
}

} // verus!
