use highway::active_validator::{ActiveValidator, Effect};
use highway::crypto::{PublicKey, SecretKey, Signature};
use highway::endorsement::{Endorsement, Endorsements, SignedEndorsement};
use highway::evidence::Evidence;
use highway::panorama::{Observation, Panorama};
use highway::state::{AddUnitError, Params, State};
use highway::unit::{SignedWireUnit, WireUnit};
use highway::validators::{Validator, ValidatorIndex, Validators};
use highway::vertex::{ValidVertex, Vertex};
use highway::Timestamp;

const ALICE: ValidatorIndex = ValidatorIndex(0);
const BOB: ValidatorIndex = ValidatorIndex(1);

fn new_test_state() -> State {
    let list = vec![
        Validator { public_key: PublicKey::new(0), weight: 3 },
        Validator { public_key: PublicKey::new(1), weight: 4 },
    ];
    State::new(Validators::new(list), Params::new(0, 4, 1, None))
}

fn make_unit(
    creator: ValidatorIndex,
    key: u64,
    observations: Vec<Observation>,
    seq_number: u64,
    timestamp: u64,
    value: Option<u64>,
) -> SignedWireUnit {
    let wire_unit = WireUnit {
        panorama: Panorama { observations },
        creator,
        instance_id: 1,
        value,
        seq_number,
        timestamp: Timestamp::new(timestamp),
        round_exp: 4,
        endorsed: vec![],
    };
    let signature = SecretKey::new(key).sign(highway::codec::hash_wire_unit(&wire_unit));
    SignedWireUnit { wire_unit, signature }
}

#[test]
fn add_unit_rejects_each_structural_error() {
    let mut state = new_test_state();

    // Unknown creator.
    let u = make_unit(ValidatorIndex(9), 0, vec![Observation::Null, Observation::Null], 0, 401, None);
    assert_eq!(Err(AddUnitError::Creator), state.add_unit(u));

    // Wrong panorama length.
    let u = make_unit(ALICE, 0, vec![Observation::Null], 0, 401, None);
    assert_eq!(Err(AddUnitError::Panorama), state.add_unit(u));

    // Out-of-range round exponent.
    let mut u = make_unit(ALICE, 0, vec![Observation::Null, Observation::Null], 0, 401, None);
    u.wire_unit.round_exp = 64;
    assert_eq!(Err(AddUnitError::RoundExponent), state.add_unit(u));

    // Wrong instance.
    let mut u = make_unit(ALICE, 0, vec![Observation::Null, Observation::Null], 0, 401, None);
    u.wire_unit.instance_id = 2;
    assert_eq!(Err(AddUnitError::InstanceId), state.add_unit(u));

    // Signed with the wrong key.
    let u = make_unit(ALICE, 1, vec![Observation::Null, Observation::Null], 0, 401, None);
    assert_eq!(Err(AddUnitError::Signature), state.add_unit(u));

    // Cites a unit that is not there.
    let u = make_unit(ALICE, 0, vec![Observation::Null, Observation::Correct(42)], 0, 401, None);
    assert_eq!(Err(AddUnitError::MissingDependency), state.add_unit(u));

    // Cites a fault with no evidence behind it.
    let u = make_unit(ALICE, 0, vec![Observation::Null, Observation::Faulty], 0, 401, None);
    assert_eq!(Err(AddUnitError::MissingDependency), state.add_unit(u));

    // Wrong sequence number.
    let u = make_unit(ALICE, 0, vec![Observation::Null, Observation::Null], 1, 401, None);
    assert_eq!(Err(AddUnitError::SequenceNumber), state.add_unit(u));

    // A value on a unit that is not a correctly shaped proposal: 401 is not
    // a round id for round length 16.
    let u = make_unit(ALICE, 0, vec![Observation::Null, Observation::Null], 0, 401, Some(1));
    assert_eq!(Err(AddUnitError::Value), state.add_unit(u));

    // A valid first unit is accepted, and accepted again as a no-op.
    let u = make_unit(ALICE, 0, vec![Observation::Null, Observation::Null], 0, 401, None);
    let h = highway::codec::hash_wire_unit(&u.wire_unit);
    assert_eq!(Ok(h), state.add_unit(u.clone()));
    assert_eq!(Ok(h), state.add_unit(u));
    assert_eq!(Some(Observation::Correct(h)), Some(state.panorama().get(ALICE)));

    // A unit citing a unit with a later timestamp is rejected.
    let u = make_unit(BOB, 1, vec![Observation::Correct(h), Observation::Null], 0, 400, None);
    assert_eq!(Err(AddUnitError::Timestamp), state.add_unit(u));

    // A cited unit must be by the validator it is cited for.
    let u = make_unit(BOB, 1, vec![Observation::Null, Observation::Correct(h)], 0, 402, None);
    assert_eq!(Err(AddUnitError::Panorama), state.add_unit(u));
}

#[test]
fn add_evidence_marks_creator_faulty_and_freezes_the_slot() {
    let mut state = new_test_state();
    let u1 = make_unit(ALICE, 0, vec![Observation::Null, Observation::Null], 0, 401, None);
    let u2 = make_unit(ALICE, 0, vec![Observation::Null, Observation::Null], 0, 402, None);
    let ev = Evidence::new(u1, u2);
    assert!(state.add_evidence(ev.clone()));
    // Idempotent.
    assert!(!state.add_evidence(ev));
    assert!(state.panorama().get(ALICE).is_faulty());

    // No future unit from that creator alters any panorama entry: the slot
    // stays `Faulty` and the unit is a no-op.
    let pan_before: Vec<Observation> = (0..2)
        .map(|i| state.panorama().get(ValidatorIndex(i)))
        .collect();
    let u3 = make_unit(ALICE, 0, vec![Observation::Null, Observation::Null], 0, 403, None);
    assert!(state.add_unit(u3).is_ok());
    let pan_after: Vec<Observation> = (0..2)
        .map(|i| state.panorama().get(ValidatorIndex(i)))
        .collect();
    assert_eq!(pan_before, pan_after);
    assert!(state.panorama().get(ALICE).is_faulty());
}

#[test]
fn invalid_evidence_is_refused() {
    let mut state = new_test_state();
    let u1 = make_unit(ALICE, 0, vec![Observation::Null, Observation::Null], 0, 401, None);
    // Same unit twice: no conflict.
    assert!(!state.add_evidence(Evidence::new(u1.clone(), u1.clone())));
    // Different creators.
    let ub = make_unit(BOB, 1, vec![Observation::Null, Observation::Null], 0, 401, None);
    assert!(!state.add_evidence(Evidence::new(u1.clone(), ub)));
    // Bad signature.
    let mut u2 = make_unit(ALICE, 0, vec![Observation::Null, Observation::Null], 0, 402, None);
    u2.signature = Signature { sig: 123 };
    assert!(!state.add_evidence(Evidence::new(u1, u2)));
}

#[test]
fn endorsements_tally_weight_and_ignore_invalid_ones() {
    let mut state = new_test_state();
    let u = make_unit(ALICE, 0, vec![Observation::Null, Observation::Null], 0, 401, None);
    let h = highway::codec::hash_wire_unit(&u.wire_unit);
    state.add_unit(u).unwrap();

    let endorsement = Endorsement::new(h, BOB);
    let eh = highway::codec::hash_endorsement(&endorsement);
    let good = SignedEndorsement::new(endorsement, SecretKey::new(1).sign(eh));
    // A bad signature and an unknown unit are silently dropped.
    let bad_sig = SignedEndorsement::new(Endorsement::new(h, ALICE), Signature { sig: 9 });
    let unknown = SignedEndorsement::new(Endorsement::new(12345, ALICE), Signature { sig: 9 });
    state.add_endorsements(&Endorsements::new(vec![good, bad_sig, unknown]));

    // Bob alone (weight 4 of 7) endorses above the half-weight threshold, so
    // the unit counts as endorsed within any panorama that sees it.
    let pan = state.citable_panorama();
    assert_eq!(vec![h], state.seen_endorsed(&pan));
}

#[test]
fn endorsement_emitted_on_observing_faulty_validator() {
    // After evidence against Bob arrives, every correct unit whose panorama
    // newly cites a unit by Bob is endorsed by the active validator.
    let mut state = new_test_state();
    let a0 = make_unit(ALICE, 0, vec![Observation::Null, Observation::Null], 0, 401, None);
    let a0h = highway::codec::hash_wire_unit(&a0.wire_unit);
    state.add_unit(a0).unwrap();
    let b0 = make_unit(BOB, 1, vec![Observation::Null, Observation::Null], 0, 402, None);
    let b0h = highway::codec::hash_wire_unit(&b0.wire_unit);
    state.add_unit(b0).unwrap();
    // Alice's second unit newly observes Bob.
    let a1 = make_unit(
        ALICE,
        0,
        vec![Observation::Correct(a0h), Observation::Correct(b0h)],
        1,
        403,
        None,
    );
    let a1h = highway::codec::hash_wire_unit(&a1.wire_unit);
    state.add_unit(a1).unwrap();

    // Bob equivocates.
    let b1 = make_unit(BOB, 1, vec![Observation::Null, Observation::Null], 0, 404, None);
    let b2 = make_unit(BOB, 1, vec![Observation::Null, Observation::Null], 0, 405, None);
    let ev = Evidence::new(b1, b2);
    assert!(state.add_evidence(ev.clone()));

    let (mut alice_av, _) =
        ActiveValidator::new(ALICE, SecretKey::new(0), Timestamp::new(410), &state);
    let effects = alice_av.on_new_evidence(&ev, &state);
    // Exactly one correct unit newly observes Bob: Alice's second unit.
    assert_eq!(1, effects.len());
    match &effects[0] {
        Effect::NewVertex(ValidVertex(Vertex::Endorsements(e))) => {
            assert_eq!(1, e.endorsements.len());
            assert_eq!(a1h, e.endorsements[0].endorsement.unit_hash);
            assert_eq!(ALICE, e.endorsements[0].endorsement.endorser);
        }
        other => panic!("unexpected effects {:?}", other),
    }
}
