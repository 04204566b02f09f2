use highway::active_validator::{ActiveValidator, Effect};
use highway::crypto::{PublicKey, SecretKey};
use highway::finality::FinalityDetector;
use highway::panorama::Observation;
use highway::state::{AddUnitError, Params, State};
use highway::unit::SignedWireUnit;
use highway::validators::{Validator, ValidatorIndex, Validators, Weight};
use highway::vertex::{ValidVertex, Vertex};
use highway::Timestamp;

const ALICE: ValidatorIndex = ValidatorIndex(0);
const BOB: ValidatorIndex = ValidatorIndex(1);

fn new_test_state() -> State {
    let list = vec![
        Validator { public_key: PublicKey::new(0), weight: 3 },
        Validator { public_key: PublicKey::new(1), weight: 4 },
    ];
    State::new(Validators::new(list), Params::new(0, 4, 1, None))
}

fn unwrap_unit(effect: Effect) -> SignedWireUnit {
    match effect {
        Effect::NewVertex(ValidVertex(Vertex::Unit(swunit))) => swunit,
        other => panic!("unexpected effects {:?}", other),
    }
}

/// Drives one round to finalization and returns the state, the detector and
/// the proposal hash.
fn one_finalized_round() -> (State, FinalityDetector, u64) {
    let mut state = new_test_state();
    let mut fd = FinalityDetector::new(Weight(2));
    let (mut alice_av, _) =
        ActiveValidator::new(ALICE, SecretKey::new(0), Timestamp::new(410), &state);
    let (mut bob_av, _) =
        ActiveValidator::new(BOB, SecretKey::new(1), Timestamp::new(410), &state);
    let bctx = match &*alice_av.handle_timer(Timestamp::new(416), &state, 1) {
        [Effect::ScheduleTimer(_), Effect::RequestNewBlock(bctx)] => *bctx,
        effects => panic!("unexpected effects {:?}", effects),
    };
    let proposal = unwrap_unit(alice_av.propose(0xC0FFEE, bctx, &state, 1).pop().unwrap());
    let prop_hash = highway::codec::hash_wire_unit(&proposal.wire_unit);
    state.add_unit(proposal).unwrap();
    let conf = unwrap_unit(bob_av.on_new_unit(prop_hash, Timestamp::new(419), &state, 1).pop().unwrap());
    state.add_unit(conf).unwrap();
    let bob_witness = unwrap_unit(bob_av.handle_timer(Timestamp::new(426), &state, 1).pop().unwrap());
    state.add_unit(bob_witness).unwrap();
    let alice_witness =
        unwrap_unit(alice_av.handle_timer(Timestamp::new(426), &state, 1).pop().unwrap());
    state.add_unit(alice_witness).unwrap();
    assert_eq!(Some(prop_hash), fd.next_finalized(&state));
    (state, fd, prop_hash)
}

#[test]
fn accepted_units_are_signed_and_sequenced() {
    // Every accepted unit's signature verifies under its creator's public
    // key over the unit's canonical hash, and its sequence number counts its
    // creator's cited predecessors.
    let (state, _, _) = one_finalized_round();
    let mut hashes = state.iter_correct_hashes();
    assert_eq!(4, hashes.len());
    for h in hashes.drain(..) {
        let record = state.unit(h);
        let wire = &record.swu.wire_unit;
        let creator = wire.creator;
        let pk = PublicKey::new(creator.0 as u64);
        assert_eq!(h, highway::codec::hash_wire_unit(wire));
        assert!(pk.verify(h, &record.swu.signature));
        let expected_seq = match wire.panorama.get(creator) {
            Observation::Correct(prev) => state.unit(prev).swu.wire_unit.seq_number + 1,
            _ => 0,
        };
        assert_eq!(expected_seq, wire.seq_number);
    }
}

#[test]
fn finalized_prefix_never_decreases() {
    // Adding further units never decreases the finalized prefix.
    let (mut state, mut fd, prop_hash) = one_finalized_round();
    assert_eq!(Some(prop_hash), fd.last_finalized());
    // A further unit arrives; nothing new finalizes, and the prefix stands.
    let (mut bob_av, _) =
        ActiveValidator::new(BOB, SecretKey::new(1), Timestamp::new(410), &state);
    let witness = unwrap_unit(bob_av.handle_timer(Timestamp::new(442), &state, 1).pop().unwrap());
    state.add_unit(witness).unwrap();
    assert_eq!(None, fd.next_finalized(&state));
    assert_eq!(Some(prop_hash), fd.last_finalized());
    assert_eq!(vec![prop_hash], fd.finalized);
}

#[test]
fn own_units_respect_the_earliest_unit_time() {
    // Every unit the active validator produces is cast at or after the
    // earliest allowed time, which never precedes the previous own unit.
    let mut state = new_test_state();
    let (mut bob_av, _) =
        ActiveValidator::new(BOB, SecretKey::new(1), Timestamp::new(410), &state);
    let (mut alice_av, _) =
        ActiveValidator::new(ALICE, SecretKey::new(0), Timestamp::new(410), &state);
    let bctx = match &*alice_av.handle_timer(Timestamp::new(416), &state, 1) {
        [Effect::ScheduleTimer(_), Effect::RequestNewBlock(bctx)] => *bctx,
        effects => panic!("unexpected effects {:?}", effects),
    };
    let proposal = unwrap_unit(alice_av.propose(0xC0FFEE, bctx, &state, 1).pop().unwrap());
    let prop_hash = highway::codec::hash_wire_unit(&proposal.wire_unit);
    state.add_unit(proposal).unwrap();
    let earliest = bob_av.earliest_unit_time(&state);
    let conf = unwrap_unit(bob_av.on_new_unit(prop_hash, Timestamp::new(419), &state, 1).pop().unwrap());
    assert!(conf.wire_unit.timestamp.millis >= earliest.millis);
    state.add_unit(conf).unwrap();
    // With the confirmation at 419 cast, the earliest next unit time is 419.
    assert_eq!(419, bob_av.earliest_unit_time(&state).millis);
    let witness = unwrap_unit(bob_av.handle_timer(Timestamp::new(426), &state, 1).pop().unwrap());
    assert!(witness.wire_unit.timestamp.millis >= 419);
}

#[test]
fn at_most_one_proposal_per_round_and_leader() {
    // A second proposal by the round's leader at the same round id does not
    // enter the DAG as a proposal: it is rejected as incorrectly shaped.
    let (mut state, _, prop_hash) = one_finalized_round();
    let first = state.unit(prop_hash).swu.clone();
    // Hand-craft a second proposal by Alice for round 416 citing the first.
    let mut wire = first.wire_unit.clone();
    wire.panorama.observations[0] = Observation::Correct(prop_hash);
    wire.seq_number = 2;
    wire.value = Some(0xBEEF);
    // Alice's latest unit is her witness at 426, the tip the unit must cite.
    let tip = match state.panorama().get(ALICE) {
        Observation::Correct(h) => h,
        other => panic!("unexpected effects {:?}", other),
    };
    wire.panorama.observations[0] = Observation::Correct(tip);
    wire.timestamp = Timestamp::new(416);
    let signature = SecretKey::new(0).sign(highway::codec::hash_wire_unit(&wire));
    let second = SignedWireUnit { wire_unit: wire, signature };
    // Rejected: its predecessor does not precede round 416, so it is not a
    // first-in-round proposal (and its timestamp precedes its predecessor).
    assert!(state.add_unit(second).is_err());
    // The round's only proposal is still the finalized one.
    let proposals: Vec<u64> = state
        .iter_correct_hashes()
        .into_iter()
        .filter(|h| {
            let u = state.unit(*h);
            u.swu.wire_unit.value.is_some() && u.swu.wire_unit.timestamp.millis == 416
        })
        .collect();
    assert_eq!(vec![prop_hash], proposals);
}
