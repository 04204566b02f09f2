use highway::active_validator::{ActiveValidator, Effect};
use highway::crypto::{PublicKey, SecretKey};
use highway::evidence::Evidence;
use highway::finality::FinalityDetector;
use highway::panorama::Panorama;
use highway::state::{AddUnitError, Params, State};
use highway::unit::{SignedWireUnit, WireUnit};
use highway::validators::{Validator, ValidatorIndex, Validators, Weight};
use highway::vertex::{ValidVertex, Vertex};
use highway::Timestamp;

const ALICE: ValidatorIndex = ValidatorIndex(0);
const BOB: ValidatorIndex = ValidatorIndex(1);

fn new_test_state(weights: &[u64], seed: u64) -> State {
    let list = weights
        .iter()
        .enumerate()
        .map(|(i, w)| Validator { public_key: PublicKey::new(i as u64), weight: *w })
        .collect();
    // Round length 16 ms, instance id 1, no stop condition.
    State::new(Validators::new(list), Params::new(seed, 4, 1, None))
}

fn unwrap_unit(effect: Effect) -> SignedWireUnit {
    match effect {
        Effect::NewVertex(ValidVertex(Vertex::Unit(swunit))) => swunit,
        other => panic!("unexpected effects {:?}", other),
    }
}

fn unwrap_single(mut vec: Vec<Effect>) -> Effect {
    assert_eq!(1, vec.len(), "unexpected effects {:?}", vec);
    vec.pop().unwrap()
}

#[test]
fn active_validator() -> Result<(), AddUnitError> {
    let mut state = new_test_state(&[3, 4], 0);
    let mut fd = FinalityDetector::new(Weight(2));
    let instance_id = 1u64;

    // We start at time 410, with round length 16, so the first leader tick is
    // 416, and the first witness tick 426.
    assert_eq!(ALICE, state.leader(Timestamp::new(416))); // Alice will be the first leader.
    assert_eq!(BOB, state.leader(Timestamp::new(432))); // Bob will be the second leader.
    let (mut alice_av, effects) =
        ActiveValidator::new(ALICE, SecretKey::new(0), Timestamp::new(410), &state);
    assert_eq!(vec![Effect::ScheduleTimer(Timestamp::new(416))], effects);
    let (mut bob_av, effects) =
        ActiveValidator::new(BOB, SecretKey::new(1), Timestamp::new(410), &state);
    assert_eq!(vec![Effect::ScheduleTimer(Timestamp::new(426))], effects);

    // Too early: no new effects.
    assert!(alice_av.handle_timer(Timestamp::new(415), &state, instance_id).is_empty());

    // Alice wants to propose a block, and also make her witness unit at 426.
    let bctx = match &*alice_av.handle_timer(Timestamp::new(416), &state, instance_id) {
        [Effect::ScheduleTimer(timestamp), Effect::RequestNewBlock(bctx)]
            if *timestamp == Timestamp::new(426) =>
        {
            *bctx
        }
        effects => panic!("unexpected effects {:?}", effects),
    };
    assert_eq!(Timestamp::new(416), bctx.timestamp());

    // She has a pending deploy from Colin who wants to pay for a hot beverage.
    let effects = alice_av.propose(0xC0FFEE, bctx, &state, instance_id);
    let proposal_wunit = unwrap_unit(unwrap_single(effects));
    let prop_hash = highway::codec::hash_wire_unit(&proposal_wunit.wire_unit);
    state.add_unit(proposal_wunit)?;
    assert!(alice_av
        .on_new_unit(prop_hash, Timestamp::new(417), &state, instance_id)
        .is_empty());

    // Bob creates a confirmation unit for Alice's proposal.
    let effects = bob_av.on_new_unit(prop_hash, Timestamp::new(419), &state, instance_id);
    state.add_unit(unwrap_unit(unwrap_single(effects)))?;

    // Bob creates his witness message 2/3 through the round.
    let mut effects = bob_av.handle_timer(Timestamp::new(426), &state, instance_id).into_iter();
    assert_eq!(
        Some(Effect::ScheduleTimer(Timestamp::new(432))),
        effects.next()
    ); // Bob is the next leader.
    state.add_unit(unwrap_unit(effects.next().unwrap()))?;
    assert_eq!(None, effects.next());

    // Alice has not witnessed Bob's unit yet.
    assert_eq!(None, fd.next_finalized(&state));

    // Alice also sends her own witness message, completing the summit for her
    // proposal.
    let mut effects = alice_av.handle_timer(Timestamp::new(426), &state, instance_id).into_iter();
    assert_eq!(
        Some(Effect::ScheduleTimer(Timestamp::new(442))),
        effects.next()
    ); // Timer for witness unit.
    state.add_unit(unwrap_unit(effects.next().unwrap()))?;
    assert_eq!(None, effects.next());

    // Payment finalized! "One Pumpkin Spice Mochaccino for Corbyn!"
    assert_eq!(Some(prop_hash), fd.next_finalized(&state));
    Ok(())
}

fn signed_alice_unit(timestamp: u64, value: Option<u64>) -> SignedWireUnit {
    let wire_unit = WireUnit {
        panorama: Panorama::all_null(2),
        creator: ALICE,
        instance_id: 1,
        value,
        seq_number: 0,
        timestamp: Timestamp::new(timestamp),
        round_exp: 4,
        endorsed: vec![],
    };
    let signature = SecretKey::new(0).sign(highway::codec::hash_wire_unit(&wire_unit));
    SignedWireUnit { wire_unit, signature }
}

#[test]
fn faulty_self_creates_no_message() {
    // Two conflicting first units by Alice: valid evidence of equivocation.
    let mut state = new_test_state(&[3, 4], 0);
    let u1 = signed_alice_unit(401, None);
    let u2 = signed_alice_unit(402, None);
    let evidence = Evidence::new(u1, u2);
    assert!(state.add_evidence(evidence));
    assert!(state.panorama().get(ALICE).is_faulty());

    let (mut alice_av, _) =
        ActiveValidator::new(ALICE, SecretKey::new(0), Timestamp::new(410), &state);
    // Deactivated: no unit is emitted.
    let effects = alice_av.handle_timer(Timestamp::new(416), &state, 1);
    assert!(effects
        .iter()
        .all(|eff| !matches!(eff, Effect::NewVertex(_))));
    assert!(effects.is_empty());
}

#[test]
fn late_consensus_value_is_dropped() {
    let state = new_test_state(&[3, 4], 0);
    let instance_id = 1u64;
    let (mut alice_av, _) =
        ActiveValidator::new(ALICE, SecretKey::new(0), Timestamp::new(410), &state);
    let bctx = match &*alice_av.handle_timer(Timestamp::new(416), &state, instance_id) {
        [Effect::ScheduleTimer(_), Effect::RequestNewBlock(bctx)] => *bctx,
        effects => panic!("unexpected effects {:?}", effects),
    };
    // The proposer replies for a timestamp that no longer matches the pending
    // proposal: the value is dropped and no unit is produced.
    let stale = highway::vertex::BlockContext::new(Timestamp::new(432), bctx.height());
    let effects = alice_av.propose(0xC0FFEE, stale, &state, instance_id);
    assert!(effects.is_empty());
}

#[test]
fn equivocation_detected_on_conflicting_units() {
    // Alice casts two conflicting first units through `add_unit`: the second
    // marks her faulty, and her own validator surfaces the evidence.
    let mut state = new_test_state(&[3, 4], 0);
    let u1 = signed_alice_unit(401, None);
    let u2 = signed_alice_unit(402, None);
    let h1 = highway::codec::hash_wire_unit(&u1.wire_unit);
    assert_eq!(Ok(h1), state.add_unit(u1));
    let h2 = highway::codec::hash_wire_unit(&u2.wire_unit);
    assert_eq!(Ok(h2), state.add_unit(u2));
    assert!(state.panorama().get(ALICE).is_faulty());

    let (mut alice_av, _) =
        ActiveValidator::new(ALICE, SecretKey::new(0), Timestamp::new(410), &state);
    let effects = alice_av.on_new_unit(h1, Timestamp::new(417), &state, 1);
    assert!(matches!(effects.as_slice(), [Effect::WeEquivocated(_)]));
}
