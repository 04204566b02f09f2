use highway::codec::{
    deserialize_evidence, deserialize_signed_wire_unit, deserialize_wire_unit,
    hash_wire_unit, serialize_evidence, serialize_signed_wire_unit, serialize_wire_unit,
    deserialize_endorsements, serialize_endorsements,
};
use highway::crypto::{SecretKey, Signature};
use highway::endorsement::{Endorsement, Endorsements, SignedEndorsement};
use highway::evidence::Evidence;
use highway::panorama::{Observation, Panorama};
use highway::unit::{SignedWireUnit, WireUnit};
use highway::validators::ValidatorIndex;
use highway::Timestamp;

fn sample_unit(value: Option<u64>) -> WireUnit {
    WireUnit {
        panorama: Panorama {
            observations: vec![
                Observation::Null,
                Observation::Correct(0xDEAD_BEEF),
                Observation::Faulty,
            ],
        },
        creator: ValidatorIndex(2),
        instance_id: 1,
        value,
        seq_number: 5,
        timestamp: Timestamp::new(416),
        round_exp: 4,
        endorsed: vec![3, 9, 27],
    }
}

#[test]
fn wire_unit_round_trip() {
    let unit = sample_unit(Some(0xC0FFEE));
    let bytes = serialize_wire_unit(&unit);
    let decoded = deserialize_wire_unit(bytes.as_slice()).unwrap();
    assert_eq!(unit, decoded);

    let no_value = sample_unit(None);
    let bytes = serialize_wire_unit(&no_value);
    assert_eq!(no_value, deserialize_wire_unit(bytes.as_slice()).unwrap());
}

#[test]
fn signed_wire_unit_round_trip_keeps_signature() {
    let wire_unit = sample_unit(Some(2));
    let signature = SecretKey::new(11).sign(hash_wire_unit(&wire_unit));
    let swu = SignedWireUnit { wire_unit, signature };
    let bytes = serialize_signed_wire_unit(&swu);
    let decoded = deserialize_signed_wire_unit(bytes.as_slice()).unwrap();
    assert_eq!(swu, decoded);
    assert_eq!(signature, decoded.signature);
}

#[test]
fn evidence_round_trip() {
    let mut u1 = sample_unit(None);
    let mut u2 = sample_unit(None);
    u2.timestamp = Timestamp::new(417);
    let sk = SecretKey::new(11);
    let ev = Evidence::new(
        SignedWireUnit { signature: sk.sign(hash_wire_unit(&u1)), wire_unit: u1 },
        SignedWireUnit { signature: sk.sign(hash_wire_unit(&u2)), wire_unit: u2 },
    );
    let bytes = serialize_evidence(&ev);
    assert_eq!(ev, deserialize_evidence(bytes.as_slice()).unwrap());
}

#[test]
fn endorsements_round_trip() {
    let e1 = SignedEndorsement::new(Endorsement::new(77, ValidatorIndex(0)), Signature { sig: 5 });
    let e2 = SignedEndorsement::new(Endorsement::new(78, ValidatorIndex(1)), Signature { sig: 6 });
    let batch = Endorsements::new(vec![e1, e2]);
    let bytes = serialize_endorsements(&batch);
    assert_eq!(batch, deserialize_endorsements(bytes.as_slice()).unwrap());
}

#[test]
fn deserialize_rejects_truncated_input() {
    let unit = sample_unit(None);
    let mut bytes = serialize_wire_unit(&unit);
    bytes.pop();
    assert!(deserialize_wire_unit(bytes.as_slice()).is_none());
    assert!(deserialize_wire_unit(&[]).is_none());
}

#[test]
fn unit_hash_binds_content_not_signature() {
    let u1 = sample_unit(None);
    let mut u2 = sample_unit(None);
    assert_eq!(hash_wire_unit(&u1), hash_wire_unit(&u2));
    u2.seq_number = 6;
    assert_ne!(hash_wire_unit(&u1), hash_wire_unit(&u2));
}
