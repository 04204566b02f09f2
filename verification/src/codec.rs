//! The stable wire format: length-prefixed, little-endian, canonical
//! fixed-width scalars.  Every scalar is one 64-bit little-endian word on the
//! wire.  A unit's canonical hash binds the serialized bytes of everything
//! except the signature.
//!
//! Serialization is specified in two layers: structures are lowered to
//! sequences of 64-bit words, and words are laid out as little-endian bytes.
//! Deserialization is canonical: it accepts exactly the byte strings that
//! serialization produces, so a round trip is the identity.

use vstd::bytes::{
    lemma_auto_spec_u64_to_from_le_bytes, spec_u64_from_le_bytes, spec_u64_to_le_bytes,
    u64_from_le_bytes, u64_to_le_bytes,
};
use vstd::prelude::*;
use vstd::slice::slice_subrange;

use crate::panorama::{Observation, Panorama};
use crate::unit::{SignedWireUnit, WireUnit};
use crate::validators::ValidatorIndex;
use crate::Timestamp;

verus! {

// ---------------------------------------------------------------------------
// Abstract models of the serialized structures.
// ---------------------------------------------------------------------------
/// The mathematical content of a [`WireUnit`].
#[verifier::ext_equal]
pub struct UnitModel {
    pub panorama: Seq<Observation>,
    pub creator: u32,
    pub instance_id: u64,
    pub value: Option<u64>,
    pub seq_number: u64,
    pub timestamp: u64,
    pub round_exp: u8,
    pub endorsed: Seq<u64>,
}

/// The mathematical content of a [`SignedWireUnit`].
#[verifier::ext_equal]
pub struct SignedUnitModel {
    pub unit: UnitModel,
    pub sig: u64,
}

impl View for WireUnit {
    type V = UnitModel;

    open spec fn view(&self) -> UnitModel {
        UnitModel {
            panorama: self.panorama@,
            creator: self.creator.0,
            instance_id: self.instance_id,
            value: self.value,
            seq_number: self.seq_number,
            timestamp: self.timestamp.millis,
            round_exp: self.round_exp,
            endorsed: self.endorsed@,
        }
    }
}

impl View for SignedWireUnit {
    type V = SignedUnitModel;

    open spec fn view(&self) -> SignedUnitModel {
        SignedUnitModel { unit: self.wire_unit@, sig: self.signature.sig }
    }
}

// ---------------------------------------------------------------------------
// Words to bytes and back.
// ---------------------------------------------------------------------------
/// The little-endian byte layout of a sequence of 64-bit words.
pub open spec fn spec_words_to_bytes(ws: Seq<u64>) -> Seq<u8> {
    Seq::new(8 * ws.len(), |i: int| spec_u64_to_le_bytes(ws[i / 8])[i % 8])
}

/// Reads a byte string back as 64-bit little-endian words; the length must
/// be a multiple of eight.
pub open spec fn spec_bytes_to_words(bs: Seq<u8>) -> Option<Seq<u64>> {
    if bs.len() % 8 == 0 {
        Some(Seq::new(bs.len() / 8, |i: int| spec_u64_from_le_bytes(bs.subrange(8 * i, 8 * i + 8))))
    } else {
        None
    }
}

/// Reading the byte layout of a word sequence gives the words back.
pub proof fn lemma_words_bytes_round_trip(ws: Seq<u64>)
    ensures
        spec_bytes_to_words(spec_words_to_bytes(ws)) == Some(ws),
{
    lemma_auto_spec_u64_to_from_le_bytes();
    let bs = spec_words_to_bytes(ws);
    assert(bs.len() == 8 * ws.len());
    assert(bs.len() % 8 == 0) by {
        vstd::arithmetic::div_mod::lemma_mod_multiples_basic(ws.len() as int, 8);
    }
    let rt = spec_bytes_to_words(bs).unwrap();
    assert(rt.len() == ws.len()) by {
        vstd::arithmetic::div_mod::lemma_div_multiples_vanish(ws.len() as int, 8);
    }
    assert forall|i: int| 0 <= i < ws.len() implies rt[i] == ws[i] by {
        let chunk = bs.subrange(8 * i, 8 * i + 8);
        assert forall|j: int| 0 <= j < 8 implies chunk[j] == spec_u64_to_le_bytes(ws[i])[j] by {
            assert(chunk[j] == bs[8 * i + j]);
            assert((8 * i + j) / 8 == i && (8 * i + j) % 8 == j) by {
                vstd::arithmetic::div_mod::lemma_fundamental_div_mod_converse(
                    8 * i + j,
                    8,
                    i,
                    j,
                );
            }
        }
        assert(chunk =~= spec_u64_to_le_bytes(ws[i]));
    }
    assert(rt =~= ws);
}

/// Lays a word sequence out as little-endian bytes.
pub fn words_to_bytes(ws: &Vec<u64>) -> (r: Vec<u8>)
    ensures
        r@ == spec_words_to_bytes(ws@),
{
    let mut out: Vec<u8> = Vec::new();
    let n = ws.len();
    let mut i: usize = 0;
    while i < n
        invariant
            0 <= i <= n,
            n == ws@.len(),
            out@.len() == 8 * i,
            forall|k: int|
                0 <= k < 8 * i ==> out@[k] == spec_u64_to_le_bytes(ws@[k / 8])[k % 8],
        decreases n - i,
    {
        let mut bytes = u64_to_le_bytes(ws[i]);
        out.append(&mut bytes);
        proof {
            assert forall|k: int| 0 <= k < 8 * (i + 1) implies out@[k] == spec_u64_to_le_bytes(
                ws@[k / 8],
            )[k % 8] by {
                if k >= 8 * i {
                    assert((k / 8) == i as int && k % 8 == k - 8 * i) by {
                        vstd::arithmetic::div_mod::lemma_fundamental_div_mod_converse(
                            k,
                            8,
                            i as int,
                            k - 8 * i,
                        );
                    }
                }
            }
        }
        i = i + 1;
    }
    proof {
        assert(out@ =~= spec_words_to_bytes(ws@));
    }
    out
}

/// Reads a byte string back as words, if its length is a multiple of eight.
pub fn bytes_to_words(bs: &[u8]) -> (r: Option<Vec<u64>>)
    ensures
        match r {
            Some(ws) => spec_bytes_to_words(bs@) == Some(ws@),
            None => spec_bytes_to_words(bs@) is None,
        },
{
    let len = bs.len();
    if len % 8 != 0 {
        return None;
    }
    let n = len / 8;
    proof {
        assert(8 * (len as int / 8) == len as int) by {
            vstd::arithmetic::div_mod::lemma_fundamental_div_mod(len as int, 8);
        }
    }
    let mut out: Vec<u64> = Vec::new();
    let mut i: usize = 0;
    while i < n
        invariant
            0 <= i <= n,
            n == bs@.len() / 8,
            bs@.len() % 8 == 0,
            bs@.len() == 8 * n,
            8 * n <= usize::MAX,
            out@.len() == i,
            forall|k: int|
                0 <= k < i ==> out@[k] == spec_u64_from_le_bytes(
                    bs@.subrange(8 * k, 8 * k + 8),
                ),
        decreases n - i,
    {
        let chunk = slice_subrange(bs, 8 * i, 8 * i + 8);
        out.push(u64_from_le_bytes(chunk));
        i = i + 1;
    }
    proof {
        let expected = spec_bytes_to_words(bs@).unwrap();
        assert(out@ =~= expected);
    }
    Some(out)
}

// ---------------------------------------------------------------------------
// Observations and panoramas as words.
// ---------------------------------------------------------------------------
/// The tag word of an observation.
pub open spec fn spec_obs_tag(o: Observation) -> u64 {
    match o {
        Observation::Null => 0u64,
        Observation::Correct(_) => 1u64,
        Observation::Faulty => 2u64,
    }
}

/// The payload word of an observation: the cited hash, or zero.
pub open spec fn spec_obs_payload(o: Observation) -> u64 {
    match o {
        Observation::Correct(h) => h,
        _ => 0u64,
    }
}

/// Reads an observation back from its tag and payload words; canonical, so
/// unused payloads must be zero.
pub open spec fn spec_obs_from_words(tag: u64, payload: u64) -> Option<Observation> {
    if tag == 0 && payload == 0 {
        Some(Observation::Null)
    } else if tag == 1 {
        Some(Observation::Correct(payload))
    } else if tag == 2 && payload == 0 {
        Some(Observation::Faulty)
    } else {
        None
    }
}

/// The word layout of a panorama: two words per observation.
pub open spec fn spec_panorama_words(p: Seq<Observation>) -> Seq<u64> {
    Seq::new(
        2 * p.len(),
        |i: int|
            if i % 2 == 0 {
                spec_obs_tag(p[i / 2])
            } else {
                spec_obs_payload(p[i / 2])
            },
    )
}

// ---------------------------------------------------------------------------
// Units as words.
// ---------------------------------------------------------------------------
/// The fixed-size head of a unit's word layout.
pub open spec fn spec_unit_head(m: UnitModel) -> Seq<u64> {
    seq![
        m.creator as u64,
        m.seq_number,
        m.timestamp,
        m.round_exp as u64,
        m.instance_id,
        if m.value is Some {
            1u64
        } else {
            0u64
        },
        match m.value {
            Some(v) => v,
            None => 0u64,
        },
        m.panorama.len() as u64,
    ]
}

/// The full word layout of a unit: head, panorama, then the endorsed set
/// with its length prefix.
pub open spec fn spec_unit_words(m: UnitModel) -> Seq<u64> {
    spec_unit_head(m) + spec_panorama_words(m.panorama) + seq![m.endorsed.len() as u64]
        + m.endorsed
}

/// Reads a unit back from its word layout; canonical.
pub open spec fn spec_unit_from_words(ws: Seq<u64>) -> Option<UnitModel> {
    if ws.len() < 9 {
        None
    } else {
        let pn = ws[7] as int;
        if ws.len() < 9 + 2 * pn {
            None
        } else {
            let en = ws[8 + 2 * pn] as int;
            if ws.len() != 9 + 2 * pn + en {
                None
            } else if ws[0] > u32::MAX as u64 {
                None
            } else if ws[3] > u8::MAX as u64 {
                None
            } else if !(ws[5] == 0 || ws[5] == 1) {
                None
            } else if ws[5] == 0 && ws[6] != 0 {
                None
            } else if exists|i: int|
                0 <= i < pn && #[trigger] spec_obs_from_words(ws[8 + 2 * i], ws[9 + 2 * i])
                    is None {
                None
            } else {
                Some(
                    UnitModel {
                        panorama: Seq::new(
                            pn as nat,
                            |i: int| spec_obs_from_words(ws[8 + 2 * i], ws[9 + 2 * i]).unwrap(),
                        ),
                        creator: ws[0] as u32,
                        instance_id: ws[4],
                        value: if ws[5] == 1 {
                            Some(ws[6])
                        } else {
                            None
                        },
                        seq_number: ws[1],
                        timestamp: ws[2],
                        round_exp: ws[3] as u8,
                        endorsed: ws.subrange(9 + 2 * pn, ws.len() as int),
                    },
                )
            }
        }
    }
}

/// The position of each piece of a unit inside its word layout.
proof fn lemma_unit_words_shape(m: UnitModel)
    ensures
        spec_unit_words(m).len() == 9 + 2 * m.panorama.len() + m.endorsed.len(),
        forall|k: int|
            0 <= k < 8 ==> #[trigger] spec_unit_words(m)[k] == spec_unit_head(m)[k],
        forall|i: int|
            0 <= i < m.panorama.len() ==> #[trigger] spec_unit_words(m)[8 + 2 * i]
                == spec_obs_tag(m.panorama[i]),
        forall|i: int|
            0 <= i < m.panorama.len() ==> #[trigger] spec_unit_words(m)[9 + 2 * i]
                == spec_obs_payload(m.panorama[i]),
        spec_unit_words(m)[8 + 2 * m.panorama.len() as int] == m.endorsed.len() as u64,
        forall|i: int|
            0 <= i < m.endorsed.len() ==> #[trigger] spec_unit_words(m)[9 + 2 * (
                m.panorama.len() as int) + i] == m.endorsed[i],
{
    let ws = spec_unit_words(m);
    let pw = spec_panorama_words(m.panorama);
    let pn = m.panorama.len() as int;
    assert forall|i: int| 0 <= i < pn implies #[trigger] ws[8 + 2 * i] == spec_obs_tag(
        m.panorama[i],
    ) by {
        assert(ws[8 + 2 * i] == pw[2 * i]);
        assert((2 * i) % 2 == 0 && (2 * i) / 2 == i) by {
            vstd::arithmetic::div_mod::lemma_fundamental_div_mod_converse(2 * i, 2, i, 0);
        }
    }
    assert forall|i: int| 0 <= i < pn implies #[trigger] ws[9 + 2 * i] == spec_obs_payload(
        m.panorama[i],
    ) by {
        assert(ws[9 + 2 * i] == pw[2 * i + 1]);
        assert((2 * i + 1) % 2 == 1 && (2 * i + 1) / 2 == i) by {
            vstd::arithmetic::div_mod::lemma_fundamental_div_mod_converse(2 * i + 1, 2, i, 1);
        }
    }
}

/// Reading a unit's word layout gives the unit back.
#[verifier::rlimit(100)]
pub proof fn lemma_unit_words_round_trip(m: UnitModel)
    requires
        m.panorama.len() <= u64::MAX,
        m.endorsed.len() <= u64::MAX,
    ensures
        spec_unit_from_words(spec_unit_words(m)) == Some(m),
{
    lemma_unit_words_shape(m);
    let ws = spec_unit_words(m);
    let pn = m.panorama.len() as int;
    let en = m.endorsed.len() as int;
    assert(ws.len() == 9 + 2 * pn + en);
    assert(ws[7] == pn as u64);
    assert forall|i: int| 0 <= i < pn implies #[trigger] spec_obs_from_words(
        ws[8 + 2 * i],
        ws[9 + 2 * i],
    ) == Some(m.panorama[i]) by {
        let o = m.panorama[i];
        match o {
            Observation::Null => {},
            Observation::Correct(_) => {},
            Observation::Faulty => {},
        }
    }
    assert(ws[8 + 2 * pn] == en as u64);
    let dec = spec_unit_from_words(ws);
    assert(dec is Some);
    let d = dec.unwrap();
    assert(d.panorama =~= m.panorama);
    assert(d.endorsed =~= m.endorsed) by {
        assert forall|i: int| 0 <= i < en implies ws.subrange(9 + 2 * pn, ws.len() as int)[i]
            == m.endorsed[i] by {
            assert(ws[9 + 2 * pn + i] == m.endorsed[i]);
        }
    }
    match m.value {
        Some(_) => {},
        None => {},
    }
}

// ---------------------------------------------------------------------------
// Signed units as words: the unit's words followed by the signature.
// ---------------------------------------------------------------------------
/// The word layout of a signed unit: the unit, then its signature.
pub open spec fn spec_signed_unit_words(m: SignedUnitModel) -> Seq<u64> {
    spec_unit_words(m.unit) + seq![m.sig]
}

/// Reads a signed unit back from its word layout; canonical.
pub open spec fn spec_signed_unit_from_words(ws: Seq<u64>) -> Option<SignedUnitModel> {
    if ws.len() < 1 {
        None
    } else {
        match spec_unit_from_words(ws.subrange(0, ws.len() - 1)) {
            Some(u) => Some(SignedUnitModel { unit: u, sig: ws[ws.len() - 1] }),
            None => None,
        }
    }
}

/// Reading a signed unit's word layout gives the signed unit, signature
/// included, back.
pub proof fn lemma_signed_unit_words_round_trip(m: SignedUnitModel)
    requires
        m.unit.panorama.len() <= u64::MAX,
        m.unit.endorsed.len() <= u64::MAX,
    ensures
        spec_signed_unit_from_words(spec_signed_unit_words(m)) == Some(m),
{
    let ws = spec_signed_unit_words(m);
    assert(ws.subrange(0, ws.len() - 1) =~= spec_unit_words(m.unit));
    lemma_unit_words_round_trip(m.unit);
}

// ---------------------------------------------------------------------------
// Byte-level layout and canonical hashes.
// ---------------------------------------------------------------------------
/// The canonical serialized bytes of a unit: everything except the
/// signature.
pub open spec fn spec_wire_unit_bytes(m: UnitModel) -> Seq<u8> {
    spec_words_to_bytes(spec_unit_words(m))
}

/// The canonical hash of a unit: the 8-byte BLAKE2b digest of its serialized
/// bytes, excluding the signature.
pub open spec fn spec_unit_hash(m: UnitModel) -> u64 {
    crate::crypto::blake2b64_of(spec_wire_unit_bytes(m))
}

/// The serialized bytes of a signed unit: the unit's words, the signature
/// word, laid out little-endian.
pub open spec fn spec_signed_unit_bytes(m: SignedUnitModel) -> Seq<u8> {
    spec_words_to_bytes(spec_signed_unit_words(m))
}

/// Reads a unit back from bytes.
pub open spec fn spec_wire_unit_from_bytes(bs: Seq<u8>) -> Option<UnitModel> {
    match spec_bytes_to_words(bs) {
        Some(ws) => spec_unit_from_words(ws),
        None => None,
    }
}

/// Reads a signed unit back from bytes.
pub open spec fn spec_signed_unit_from_bytes(bs: Seq<u8>) -> Option<SignedUnitModel> {
    match spec_bytes_to_words(bs) {
        Some(ws) => spec_signed_unit_from_words(ws),
        None => None,
    }
}

// ---------------------------------------------------------------------------
// Executable encoders.
// ---------------------------------------------------------------------------
/// Lowers a unit to its word layout.
pub fn wire_unit_words(u: &WireUnit) -> (r: Vec<u64>)
    ensures
        r@ == spec_unit_words(u@),
{
    let ghost m = u@;
    let mut out: Vec<u64> = Vec::new();
    out.push(u.creator.0 as u64);
    out.push(u.seq_number);
    out.push(u.timestamp.millis);
    out.push(u.round_exp as u64);
    out.push(u.instance_id);
    match u.value {
        Some(v) => {
            out.push(1);
            out.push(v);
        },
        None => {
            out.push(0);
            out.push(0);
        },
    }
    out.push(u.panorama.observations.len() as u64);
    proof {
        assert(out@ =~= spec_unit_head(m));
    }
    let ghost pw = spec_panorama_words(m.panorama);
    let n = u.panorama.observations.len();
    let mut i: usize = 0;
    while i < n
        invariant
            0 <= i <= n,
            n == m.panorama.len(),
            u@ == m,
            pw == spec_panorama_words(m.panorama),
            out@ == spec_unit_head(m) + pw.subrange(0, 2 * i as int),
        decreases n - i,
    {
        match u.panorama.observations[i] {
            Observation::Null => {
                out.push(0);
                out.push(0);
            },
            Observation::Correct(h) => {
                out.push(1);
                out.push(h);
            },
            Observation::Faulty => {
                out.push(2);
                out.push(0);
            },
        }
        proof {
            let ii = i as int;
            assert((2 * ii) % 2 == 0 && (2 * ii) / 2 == ii && (2 * ii + 1) % 2 == 1 && (2 * ii
                + 1) / 2 == ii) by {
                vstd::arithmetic::div_mod::lemma_fundamental_div_mod_converse(2 * ii, 2, ii, 0);
                vstd::arithmetic::div_mod::lemma_fundamental_div_mod_converse(
                    2 * ii + 1,
                    2,
                    ii,
                    1,
                );
            }
            assert(pw[2 * ii] == spec_obs_tag(m.panorama[ii]));
            assert(pw[2 * ii + 1] == spec_obs_payload(m.panorama[ii]));
            assert(out@ =~= spec_unit_head(m) + pw.subrange(0, 2 * (ii + 1)));
        }
        i = i + 1;
    }
    proof {
        assert(pw.subrange(0, 2 * n as int) =~= pw);
    }
    out.push(u.endorsed.len() as u64);
    let en = u.endorsed.len();
    let mut j: usize = 0;
    while j < en
        invariant
            0 <= j <= en,
            en == m.endorsed.len(),
            u@ == m,
            pw == spec_panorama_words(m.panorama),
            out@ == spec_unit_head(m) + pw + seq![m.endorsed.len() as u64] + m.endorsed.subrange(
                0,
                j as int,
            ),
        decreases en - j,
    {
        out.push(u.endorsed[j]);
        proof {
            assert(out@ =~= spec_unit_head(m) + pw + seq![m.endorsed.len() as u64]
                + m.endorsed.subrange(0, j + 1 as int));
        }
        j = j + 1;
    }
    proof {
        assert(m.endorsed.subrange(0, en as int) =~= m.endorsed);
        assert(out@ =~= spec_unit_words(m));
    }
    out
}

/// Lowers a signed unit to its word layout: the unit's words, then the
/// signature.
pub fn signed_wire_unit_words(swu: &SignedWireUnit) -> (r: Vec<u64>)
    ensures
        r@ == spec_signed_unit_words(swu@),
{
    let mut out = wire_unit_words(&swu.wire_unit);
    out.push(swu.signature.sig);
    proof {
        assert(out@ =~= spec_signed_unit_words(swu@));
    }
    out
}

/// Serializes a unit (without a signature) to its canonical bytes.
pub fn serialize_wire_unit(u: &WireUnit) -> (r: Vec<u8>)
    ensures
        r@ == spec_wire_unit_bytes(u@),
{
    let ws = wire_unit_words(u);
    words_to_bytes(&ws)
}

/// Serializes a signed unit to its canonical bytes.
pub fn serialize_signed_wire_unit(swu: &SignedWireUnit) -> (r: Vec<u8>)
    ensures
        r@ == spec_signed_unit_bytes(swu@),
{
    let ws = signed_wire_unit_words(swu);
    words_to_bytes(&ws)
}

/// The canonical hash of a unit: the digest of its serialized bytes,
/// excluding the signature.
pub fn hash_wire_unit(u: &WireUnit) -> (r: u64)
    ensures
        r == spec_unit_hash(u@),
{
    let bytes = serialize_wire_unit(u);
    crate::crypto::blake2b_hash64(&bytes)
}

// ---------------------------------------------------------------------------
// Executable decoders.
// ---------------------------------------------------------------------------
/// Reads a unit back from its word layout.
#[verifier::rlimit(100)]
#[verifier::loop_isolation(false)]
pub fn wire_unit_from_words(ws: &[u64]) -> (r: Option<WireUnit>)
    ensures
        match r {
            Some(u) => spec_unit_from_words(ws@) == Some(u@),
            None => spec_unit_from_words(ws@) is None,
        },
{
    let len = ws.len();
    if len < 9 {
        return None;
    }
    let pn64 = ws[7];
    if pn64 > ((len - 9) / 2) as u64 {
        proof {
            if ws@.len() >= 9 + 2 * (pn64 as int) {
                vstd::arithmetic::div_mod::lemma_div_multiples_vanish(pn64 as int, 2);
                vstd::arithmetic::div_mod::lemma_div_is_ordered(
                    2 * (pn64 as int),
                    len as int - 9,
                    2,
                );
            }
        }
        return None;
    }
    proof {
        vstd::arithmetic::div_mod::lemma_fundamental_div_mod(len as int - 9, 2);
    }
    let pn = pn64 as usize;
    let en_idx = 8 + 2 * pn;
    let en64 = ws[en_idx];
    let rem = len - 9 - 2 * pn;
    if en64 != rem as u64 {
        return None;
    }
    let en = rem;
    if ws[0] > u32::MAX as u64 {
        return None;
    }
    if ws[3] > u8::MAX as u64 {
        return None;
    }
    if !(ws[5] == 0 || ws[5] == 1) {
        return None;
    }
    if ws[5] == 0 && ws[6] != 0 {
        return None;
    }
    proof {
        assert(9 + 2 * pn + en <= usize::MAX);
    }
    let mut observations: Vec<Observation> = Vec::new();
    let mut i: usize = 0;
    while i < pn
        invariant
            0 <= i <= pn,
            ws@.len() == 9 + 2 * pn + en,
            9 + 2 * pn + en <= usize::MAX,
            observations@.len() == i,
            forall|j: int|
                0 <= j < i ==> Some(observations@[j]) == #[trigger] spec_obs_from_words(
                    ws@[8 + 2 * j],
                    ws@[9 + 2 * j],
                ),
        decreases pn - i,
    {
        let tag = ws[8 + 2 * i];
        let payload = ws[9 + 2 * i];
        let obs = if tag == 0 && payload == 0 {
            Observation::Null
        } else if tag == 1 {
            Observation::Correct(payload)
        } else if tag == 2 && payload == 0 {
            Observation::Faulty
        } else {
            proof {
                let q = i as int;
                assert(spec_obs_from_words(ws@[8 + 2 * q], ws@[9 + 2 * q]) is None);
                assert(exists|z: int|
                    0 <= z < (ws@[7] as int) && #[trigger] spec_obs_from_words(
                        ws@[8 + 2 * z],
                        ws@[9 + 2 * z],
                    ) is None);
            }
            return None;
        };
        observations.push(obs);
        i = i + 1;
    }
    let mut endorsed: Vec<u64> = Vec::new();
    let mut j: usize = 0;
    while j < en
        invariant
            0 <= j <= en,
            ws@.len() == 9 + 2 * pn + en,
            9 + 2 * pn + en <= usize::MAX,
            endorsed@.len() == j,
            forall|k: int| 0 <= k < j ==> endorsed@[k] == ws@[9 + 2 * pn + k],
        decreases en - j,
    {
        endorsed.push(ws[9 + 2 * pn + j]);
        j = j + 1;
    }
    let u = WireUnit {
        panorama: Panorama { observations },
        creator: ValidatorIndex(ws[0] as u32),
        instance_id: ws[4],
        value: if ws[5] == 1 {
            Some(ws[6])
        } else {
            None
        },
        seq_number: ws[1],
        timestamp: Timestamp { millis: ws[2] },
        round_exp: ws[3] as u8,
        endorsed,
    };
    proof {
        let dec = spec_unit_from_words(ws@);
        assert(dec is Some);
        let d = dec.unwrap();
        assert(u@.panorama =~= d.panorama);
        assert(u@.endorsed =~= d.endorsed) by {
            assert forall|k: int| 0 <= k < en implies u@.endorsed[k] == d.endorsed[k] by {
                assert(d.endorsed[k] == ws@.subrange(
                    9 + 2 * pn as int,
                    ws@.len() as int,
                )[k]);
            }
        }
        assert(u@ =~= d);
    }
    Some(u)
}

/// Reads a signed unit back from its word layout.
pub fn signed_wire_unit_from_words(ws: &[u64]) -> (r: Option<SignedWireUnit>)
    ensures
        match r {
            Some(swu) => spec_signed_unit_from_words(ws@) == Some(swu@),
            None => spec_signed_unit_from_words(ws@) is None,
        },
{
    let len = ws.len();
    if len < 1 {
        return None;
    }
    let head = slice_subrange(ws, 0, len - 1);
    match wire_unit_from_words(head) {
        Some(u) => {
            let swu = SignedWireUnit {
                wire_unit: u,
                signature: crate::crypto::Signature { sig: ws[len - 1] },
            };
            proof {
                assert(spec_signed_unit_from_words(ws@).unwrap() =~= swu@);
            }
            Some(swu)
        },
        None => None,
    }
}

/// Deserializes a unit from its canonical bytes.
pub fn deserialize_wire_unit(bs: &[u8]) -> (r: Option<WireUnit>)
    ensures
        match r {
            Some(u) => spec_wire_unit_from_bytes(bs@) == Some(u@),
            None => spec_wire_unit_from_bytes(bs@) is None,
        },
{
    match bytes_to_words(bs) {
        Some(ws) => wire_unit_from_words(ws.as_slice()),
        None => None,
    }
}

/// Deserializes a signed unit from its canonical bytes.
pub fn deserialize_signed_wire_unit(bs: &[u8]) -> (r: Option<SignedWireUnit>)
    ensures
        match r {
            Some(swu) => spec_signed_unit_from_bytes(bs@) == Some(swu@),
            None => spec_signed_unit_from_bytes(bs@) is None,
        },
{
    match bytes_to_words(bs) {
        Some(ws) => signed_wire_unit_from_words(ws.as_slice()),
        None => None,
    }
}

// ---------------------------------------------------------------------------
// Round-trip laws at the byte level.
// ---------------------------------------------------------------------------
/// Deserializing a serialized unit gives the unit back.
pub proof fn lemma_wire_unit_bytes_round_trip(m: UnitModel)
    requires
        m.panorama.len() <= u64::MAX,
        m.endorsed.len() <= u64::MAX,
    ensures
        spec_wire_unit_from_bytes(spec_wire_unit_bytes(m)) == Some(m),
{
    lemma_words_bytes_round_trip(spec_unit_words(m));
    lemma_unit_words_round_trip(m);
}

/// Deserializing a serialized signed unit gives the signed unit back, its
/// signature included: the signature is invariant under a round trip.
pub proof fn lemma_signed_unit_bytes_round_trip(m: SignedUnitModel)
    requires
        m.unit.panorama.len() <= u64::MAX,
        m.unit.endorsed.len() <= u64::MAX,
    ensures
        spec_signed_unit_from_bytes(spec_signed_unit_bytes(m)) == Some(m),
        spec_signed_unit_from_bytes(spec_signed_unit_bytes(m)).unwrap().sig == m.sig,
{
    lemma_words_bytes_round_trip(spec_signed_unit_words(m));
    lemma_signed_unit_words_round_trip(m);
}

// ---------------------------------------------------------------------------
// Evidence: two signed units, the first prefixed with its word count.
// ---------------------------------------------------------------------------
/// The word layout of evidence: the first unit's word count, then the two
/// signed units.
pub open spec fn spec_evidence_words(ev: crate::evidence::EvidenceModel) -> Seq<u64> {
    let w1 = spec_signed_unit_words(ev.unit1);
    let w2 = spec_signed_unit_words(ev.unit2);
    seq![w1.len() as u64] + w1 + w2
}

/// Reads evidence back from its word layout.
pub open spec fn spec_evidence_from_words(ws: Seq<u64>) -> Option<
    crate::evidence::EvidenceModel,
> {
    if ws.len() < 1 {
        None
    } else {
        let n1 = ws[0] as int;
        if ws.len() < 1 + n1 {
            None
        } else {
            let d1 = spec_signed_unit_from_words(ws.subrange(1, 1 + n1));
            let d2 = spec_signed_unit_from_words(ws.subrange(1 + n1, ws.len() as int));
            if d1 is Some && d2 is Some {
                Some(
                    crate::evidence::EvidenceModel { unit1: d1.unwrap(), unit2: d2.unwrap() },
                )
            } else {
                None
            }
        }
    }
}

/// The serialized bytes of evidence.
pub open spec fn spec_evidence_bytes(ev: crate::evidence::EvidenceModel) -> Seq<u8> {
    spec_words_to_bytes(spec_evidence_words(ev))
}

/// Reads evidence back from bytes.
pub open spec fn spec_evidence_from_bytes(bs: Seq<u8>) -> Option<
    crate::evidence::EvidenceModel,
> {
    match spec_bytes_to_words(bs) {
        Some(ws) => spec_evidence_from_words(ws),
        None => None,
    }
}

/// Serializes evidence to its canonical bytes.
pub fn serialize_evidence(ev: &crate::evidence::Evidence) -> (r: Vec<u8>)
    ensures
        r@ == spec_evidence_bytes(ev@),
{
    let mut w1 = signed_wire_unit_words(&ev.unit1);
    let mut w2 = signed_wire_unit_words(&ev.unit2);
    let mut out: Vec<u64> = Vec::new();
    out.push(w1.len() as u64);
    out.append(&mut w1);
    out.append(&mut w2);
    proof {
        assert(out@ =~= spec_evidence_words(ev@));
    }
    words_to_bytes(&out)
}

/// Deserializes evidence from its canonical bytes.
pub fn deserialize_evidence(bs: &[u8]) -> (r: Option<crate::evidence::Evidence>)
    ensures
        match r {
            Some(ev) => spec_evidence_from_bytes(bs@) == Some(ev@),
            None => spec_evidence_from_bytes(bs@) is None,
        },
{
    let ws = match bytes_to_words(bs) {
        Some(ws) => ws,
        None => {
            return None;
        },
    };
    let len = ws.len();
    if len < 1 {
        return None;
    }
    let n1_64 = ws[0];
    if n1_64 > (len - 1) as u64 {
        return None;
    }
    let n1 = n1_64 as usize;
    let s1 = slice_subrange(ws.as_slice(), 1, 1 + n1);
    let s2 = slice_subrange(ws.as_slice(), 1 + n1, len);
    let u1 = match signed_wire_unit_from_words(s1) {
        Some(u) => u,
        None => {
            return None;
        },
    };
    let u2 = match signed_wire_unit_from_words(s2) {
        Some(u) => u,
        None => {
            return None;
        },
    };
    let ev = crate::evidence::Evidence { unit1: u1, unit2: u2 };
    proof {
        assert(spec_evidence_from_words(ws@).unwrap() =~= ev@);
    }
    Some(ev)
}

/// Deserializing serialized evidence gives the evidence back.
pub proof fn lemma_evidence_bytes_round_trip(ev: crate::evidence::EvidenceModel)
    requires
        ev.unit1.unit.panorama.len() <= u64::MAX,
        ev.unit1.unit.endorsed.len() <= u64::MAX,
        ev.unit2.unit.panorama.len() <= u64::MAX,
        ev.unit2.unit.endorsed.len() <= u64::MAX,
        spec_signed_unit_words(ev.unit1).len() <= u64::MAX,
    ensures
        spec_evidence_from_bytes(spec_evidence_bytes(ev)) == Some(ev),
{
    let w1 = spec_signed_unit_words(ev.unit1);
    let w2 = spec_signed_unit_words(ev.unit2);
    let ws = spec_evidence_words(ev);
    lemma_words_bytes_round_trip(ws);
    let n1 = w1.len() as int;
    assert(ws.subrange(1, 1 + n1) =~= w1);
    assert(ws.subrange(1 + n1, ws.len() as int) =~= w2);
    lemma_signed_unit_words_round_trip(ev.unit1);
    lemma_signed_unit_words_round_trip(ev.unit2);
}

// ---------------------------------------------------------------------------
// Endorsements: a length prefix, then three words per signed endorsement.
// ---------------------------------------------------------------------------
/// The word layout of a batch of signed endorsements.
pub open spec fn spec_endorsements_words(s: Seq<crate::endorsement::SignedEndorsement>) -> Seq<
    u64,
> {
    seq![s.len() as u64] + Seq::new(
        3 * s.len(),
        |i: int|
            if i % 3 == 0 {
                s[i / 3].endorsement.unit_hash
            } else if i % 3 == 1 {
                s[i / 3].endorsement.endorser.0 as u64
            } else {
                s[i / 3].signature.sig
            },
    )
}

/// Reads a batch of signed endorsements back from its word layout.
pub open spec fn spec_endorsements_from_words(ws: Seq<u64>) -> Option<
    Seq<crate::endorsement::SignedEndorsement>,
> {
    if ws.len() < 1 {
        None
    } else {
        let n = ws[0] as int;
        if ws.len() != 1 + 3 * n {
            None
        } else if exists|i: int| 0 <= i < n && #[trigger] ws[2 + 3 * i] > u32::MAX as u64 {
            None
        } else {
            Some(
                Seq::new(
                    n as nat,
                    |i: int|
                        crate::endorsement::SignedEndorsement {
                            endorsement: crate::endorsement::Endorsement {
                                unit_hash: ws[1 + 3 * i],
                                endorser: ValidatorIndex(ws[2 + 3 * i] as u32),
                            },
                            signature: crate::crypto::Signature { sig: ws[3 + 3 * i] },
                        },
                ),
            )
        }
    }
}

/// The serialized bytes of a batch of signed endorsements.
pub open spec fn spec_endorsements_bytes(s: Seq<crate::endorsement::SignedEndorsement>) -> Seq<
    u8,
> {
    spec_words_to_bytes(spec_endorsements_words(s))
}

/// Reads a batch of signed endorsements back from bytes.
pub open spec fn spec_endorsements_from_bytes(bs: Seq<u8>) -> Option<
    Seq<crate::endorsement::SignedEndorsement>,
> {
    match spec_bytes_to_words(bs) {
        Some(ws) => spec_endorsements_from_words(ws),
        None => None,
    }
}

/// Serializes a batch of signed endorsements to its canonical bytes.
#[verifier::loop_isolation(false)]
pub fn serialize_endorsements(e: &crate::endorsement::Endorsements) -> (r: Vec<u8>)
    ensures
        r@ == spec_endorsements_bytes(e@),
{
    let ghost target = spec_endorsements_words(e@);
    let n = e.endorsements.len();
    let mut out: Vec<u64> = Vec::new();
    out.push(n as u64);
    let mut i: usize = 0;
    while i < n
        invariant
            0 <= i <= n,
            out@.len() == 1 + 3 * i,
            out@ == target.subrange(0, 1 + 3 * i as int),
        decreases n - i,
    {
        let se = e.endorsements[i];
        out.push(se.endorsement.unit_hash);
        out.push(se.endorsement.endorser.0 as u64);
        out.push(se.signature.sig);
        proof {
            let ii = i as int;
            assert forall|k: int| 0 <= k < 3 implies #[trigger] target[1 + 3 * ii + k] == out@[1
                + 3 * ii + k] by {
                assert((3 * ii + k) % 3 == k && (3 * ii + k) / 3 == ii) by {
                    vstd::arithmetic::div_mod::lemma_fundamental_div_mod_converse(
                        3 * ii + k,
                        3,
                        ii,
                        k,
                    );
                }
            }
            assert(out@ =~= target.subrange(0, 1 + 3 * (ii + 1)));
        }
        i = i + 1;
    }
    proof {
        assert(out@ =~= target);
    }
    words_to_bytes(&out)
}

/// Deserializes a batch of signed endorsements from its canonical bytes.
#[verifier::loop_isolation(false)]
pub fn deserialize_endorsements(bs: &[u8]) -> (r: Option<crate::endorsement::Endorsements>)
    ensures
        match r {
            Some(e) => spec_endorsements_from_bytes(bs@) == Some(e@),
            None => spec_endorsements_from_bytes(bs@) is None,
        },
{
    let ws = match bytes_to_words(bs) {
        Some(ws) => ws,
        None => {
            return None;
        },
    };
    let len = ws.len();
    if len < 1 {
        return None;
    }
    let n64 = ws[0];
    if n64 > ((len - 1) / 3) as u64 || len != 1 + 3 * (n64 as usize) {
        proof {
            if ws@.len() == 1 + 3 * (n64 as int) {
                vstd::arithmetic::div_mod::lemma_div_multiples_vanish(n64 as int, 3);
            }
        }
        return None;
    }
    let n = n64 as usize;
    let mut list: Vec<crate::endorsement::SignedEndorsement> = Vec::new();
    let mut i: usize = 0;
    while i < n
        invariant
            0 <= i <= n,
            list@.len() == i,
            forall|j: int| 0 <= j < i ==> #[trigger] ws@[2 + 3 * j] <= u32::MAX as u64,
            forall|j: int|
                0 <= j < i ==> #[trigger] list@[j].endorsement.unit_hash == ws@[1 + 3 * j],
            forall|j: int|
                0 <= j < i ==> #[trigger] list@[j].endorsement.endorser.0 == ws@[2 + 3 * j] as u32,
            forall|j: int| 0 <= j < i ==> #[trigger] list@[j].signature.sig == ws@[3 + 3 * j],
        decreases n - i,
    {
        let endorser64 = ws[2 + 3 * i];
        if endorser64 > u32::MAX as u64 {
            proof {
                let q = i as int;
                assert(exists|z: int|
                    0 <= z < (ws@[0] as int) && #[trigger] ws@[2 + 3 * z] > u32::MAX as u64);
            }
            return None;
        }
        let se = crate::endorsement::SignedEndorsement {
            endorsement: crate::endorsement::Endorsement {
                unit_hash: ws[1 + 3 * i],
                endorser: ValidatorIndex(endorser64 as u32),
            },
            signature: crate::crypto::Signature { sig: ws[3 + 3 * i] },
        };
        list.push(se);
        proof {
            assert(list@[i as int] == se);
        }
        i = i + 1;
    }
    let e = crate::endorsement::Endorsements { endorsements: list };
    proof {
        assert(ws@.len() == 1 + 3 * (ws@[0] as int));
        assert forall|z: int| 0 <= z < (ws@[0] as int) implies !(#[trigger] ws@[2 + 3 * z]
            > u32::MAX as u64) by {
            assert(ws@[2 + 3 * z] <= u32::MAX as u64);
        }
        let dec = spec_endorsements_from_words(ws@);
        assert(dec is Some);
        let d = dec.unwrap();
        assert forall|j: int| 0 <= j < n implies e@[j] == d[j] by {
            assert(list@[j].endorsement.unit_hash == ws@[1 + 3 * j]);
            assert(list@[j].endorsement.endorser.0 == ws@[2 + 3 * j] as u32);
            assert(list@[j].signature.sig == ws@[3 + 3 * j]);
        }
        assert(e@ =~= d);
    }
    Some(e)
}

/// Deserializing serialized endorsements gives them back, signatures
/// included.
pub proof fn lemma_endorsements_bytes_round_trip(
    s: Seq<crate::endorsement::SignedEndorsement>,
)
    requires
        s.len() <= u64::MAX,
    ensures
        spec_endorsements_from_bytes(spec_endorsements_bytes(s)) == Some(s),
{
    let ws = spec_endorsements_words(s);
    lemma_words_bytes_round_trip(ws);
    let n = s.len() as int;
    assert(ws.len() == 1 + 3 * n);
    assert forall|i: int| 0 <= i < n implies {
        &&& #[trigger] ws[1 + 3 * i] == s[i].endorsement.unit_hash
        &&& ws[2 + 3 * i] == s[i].endorsement.endorser.0 as u64
        &&& ws[3 + 3 * i] == s[i].signature.sig
    } by {
        assert forall|k: int| 0 <= k < 3 implies #[trigger] ((3 * i + k) % 3) == k && (3 * i
            + k) / 3 == i by {
            vstd::arithmetic::div_mod::lemma_fundamental_div_mod_converse(3 * i + k, 3, i, k);
        }
        assert(ws[1 + 3 * i] == spec_endorsements_words(s)[1 + 3 * i]);
    }
    let dec = spec_endorsements_from_words(ws);
    assert(dec is Some);
    assert(dec.unwrap() =~= s);
}

// ---------------------------------------------------------------------------
// The canonical hash of an endorsement, bound by its signature.
// ---------------------------------------------------------------------------
/// The serialized bytes of a bare endorsement: its unit hash and endorser.
pub open spec fn spec_endorsement_bytes(e: crate::endorsement::Endorsement) -> Seq<u8> {
    spec_words_to_bytes(seq![e.unit_hash, e.endorser.0 as u64])
}

/// The canonical hash of an endorsement: what the endorser signs.
pub open spec fn spec_endorsement_hash(e: crate::endorsement::Endorsement) -> u64 {
    crate::crypto::blake2b64_of(spec_endorsement_bytes(e))
}

/// Computes the canonical hash of an endorsement.
pub fn hash_endorsement(e: &crate::endorsement::Endorsement) -> (r: u64)
    ensures
        r == spec_endorsement_hash(*e),
{
    let mut ws: Vec<u64> = Vec::new();
    ws.push(e.unit_hash);
    ws.push(e.endorser.0 as u64);
    proof {
        assert(ws@ =~= seq![e.unit_hash, e.endorser.0 as u64]);
    }
    let bytes = words_to_bytes(&ws);
    crate::crypto::blake2b_hash64(&bytes)
}

} // verus!
