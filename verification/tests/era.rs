use highway::candidate::{CandidateBlock, ProtoBlock};
use highway::crypto::PublicKey;
use highway::era::{EraId, EraTracker};
use highway::Timestamp;

#[test]
fn era_end_reports_accumulated_equivocators() {
    // Bob proposes with an accusation against Alice, then proposes again
    // with none: the first finalized block carries no equivocators and no
    // era end, the era's last block reports Alice.
    let alice = PublicKey::new(0);
    let bob = PublicKey::new(1);
    let mut tracker = EraTracker::new(EraId(0), 2);

    let proto1 = ProtoBlock::new(vec![], vec![], true);
    let candidate1 = CandidateBlock::new(proto1.clone(), Timestamp::new(100), vec![alice]);
    let fb1 = tracker.finalize_block(candidate1, bob);
    assert_eq!(proto1, fb1.proto_block);
    assert_eq!(Timestamp::new(100), fb1.timestamp);
    assert_eq!(None, fb1.era_end);
    assert_eq!(EraId(0), fb1.era_id);
    assert_eq!(0, fb1.height);
    assert_eq!(bob, fb1.proposer);

    let proto2 = ProtoBlock::new(vec![], vec![], true);
    let candidate2 = CandidateBlock::new(proto2.clone(), Timestamp::new(200), vec![]);
    let fb2 = tracker.finalize_block(candidate2, bob);
    assert_eq!(1, fb2.height);
    let era_end = fb2.era_end.expect("the era's last block carries the era end");
    assert_eq!(vec![alice], era_end.equivocators);
    assert!(era_end.rewards.is_empty());
}

#[test]
fn candidate_block_accessors_and_hash() {
    let proto = ProtoBlock::new(vec![1, 2], vec![3], false);
    let accused = PublicKey::new(7);
    let cb = CandidateBlock::new(proto.clone(), Timestamp::new(5), vec![accused]);
    assert_eq!(&proto, cb.proto_block());
    assert_eq!(Timestamp::new(5), cb.timestamp());
    assert_eq!(&vec![accused], cb.accusations());
    assert!(cb.needs_validation());
    let empty = CandidateBlock::new(ProtoBlock::new(vec![], vec![], true), Timestamp::new(5), vec![]);
    assert!(!empty.needs_validation());

    // The hash binds the content.
    let h1 = cb.hash();
    let mut other = cb.clone();
    other.timestamp = Timestamp::new(6);
    assert_ne!(h1.digest, other.hash().digest);
    assert_eq!(32, h1.digest.len());
    assert_eq!(h1.digest, cb.clone().hash().digest);
    let proto_again = cb.into_proto_block();
    assert_eq!(proto, proto_again);
}
