use highway::crypto::Signature;
use highway::linear_chain::{Action, Block, Event, LinearChain, LinearChainRequest};

#[test]
fn linear_chain_tracks_last_stored_block() {
    let mut lc = LinearChain::new();
    assert!(lc.last_block.is_none());

    // A new block is sent to storage.
    let block = Block::new(42, 0);
    let actions: Vec<Action<u32>> = lc.handle_event(Event::LinearChainBlock(block.clone()));
    assert_eq!(vec![Action::PutBlock(block.clone())], actions);
    assert!(lc.last_block.is_none());

    // Once stored, it becomes the last block and gets signed.
    let actions: Vec<Action<u32>> = lc.handle_event(Event::PutBlockResult(block.clone()));
    assert_eq!(vec![Action::RequestFinalitySignature(42)], actions);
    assert_eq!(Some(block.clone()), lc.last_block);

    // Peers can ask for blocks and for the last finalized block.
    let actions = lc.handle_event(Event::Request(LinearChainRequest::BlockRequest(42, 7u32)));
    assert_eq!(vec![Action::GetBlock(42, 7u32)], actions);
    let actions: Vec<Action<u32>> = lc.handle_event(Event::Request(LinearChainRequest::LastFinalizedBlock));
    assert_eq!(vec![Action::RespondLastFinalized(Some(block.clone()))], actions);

    // A found block is sent to the requester; a missing one is dropped.
    let actions = lc.handle_event(Event::GetBlockResult(42, Some(block.clone()), 7u32));
    assert_eq!(vec![Action::SendBlock(7u32, block.clone())], actions);
    let actions: Vec<Action<u32>> = lc.handle_event(Event::GetBlockResult(43, None, 7u32));
    assert!(actions.is_empty());

    // A finality signature is appended to the stored block.
    let sig = Signature { sig: 9 };
    let actions: Vec<Action<u32>> = lc.handle_event(Event::NewFinalitySignature(42, sig));
    assert_eq!(vec![Action::StoreSignature(42, sig)], actions);

    let mut b = Block::new(1, 0);
    b.append_proof(sig);
    assert_eq!(vec![sig], b.proofs);
}
