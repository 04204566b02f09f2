//! The active validator: the timer-driven scheduler and message producer for
//! this node's identity, enforcing its honesty constraints: never
//! equivocate, never cast a third unit inside one round, never cast a unit
//! with a timestamp preceding its last unit, and deactivate permanently on
//! self-detected equivocation.

use vstd::prelude::*;

use crate::codec::{spec_unit_hash, SignedUnitModel};
use crate::crypto::{spec_sign, SecretKey};
use crate::endorsement::{Endorsement, Endorsements, SignedEndorsement};
use crate::evidence::Evidence;
use crate::panorama::{Observation, Panorama};
use crate::round::{
    round_id, round_len, spec_round_id, spec_round_len, spec_witness_offset, valid_round_exp,
    witness_offset_of,
};
use crate::state::{spec_has_unit, spec_index_of, State};
use crate::unit::{SignedWireUnit, WireUnit};
use crate::validators::ValidatorIndex;
use crate::vertex::{BlockContext, ValidVertex, Vertex};
use crate::{sat_add, TimeDiff, Timestamp};

verus! {

/// An action the host runtime must take on behalf of the validator.
#[derive(Clone, PartialEq, Eq, Debug)]
pub enum Effect {
    /// A new vertex to add to the protocol state and gossip to peers.
    NewVertex(ValidVertex),
    /// `handle_timer` needs to be called at the given time.
    ScheduleTimer(Timestamp),
    /// `propose` needs to be called with a consensus value for this context.
    RequestNewBlock(BlockContext),
    /// This validator equivocated; the host must gossip the evidence and
    /// deactivate this node's signing.
    WeEquivocated(Evidence),
}

/// Whether an effect carries a new signed unit with this content.
pub open spec fn spec_is_unit_effect(eff: Effect, u: SignedUnitModel) -> bool {
    match eff {
        Effect::NewVertex(vv) => match vv.0 {
            Vertex::Unit(swu) => swu@ == u,
            _ => false,
        },
        _ => false,
    }
}

/// A validator that actively participates in consensus by producing new
/// vertices on schedule.
pub struct ActiveValidator {
    /// Our own validator index.
    pub vidx: ValidatorIndex,
    /// The validator's secret signing key.
    pub secret: SecretKey,
    /// Our next round will be `1 << next_round_exp` milliseconds long.
    pub next_round_exp: u8,
    /// The latest timer we scheduled.
    pub next_timer: Timestamp,
    /// Timestamp and panorama of the block we are about to propose, while
    /// awaiting a consensus value from the external proposer.
    pub next_proposal: Option<(Timestamp, Panorama)>,
}

impl ActiveValidator {
    /// Basic sanity of the validator against a state: the index is in
    /// range and the next round exponent gives a representable round.
    pub open spec fn wf(&self, s: &State) -> bool {
        &&& (self.vidx.0 as int) < s.spec_n()
        &&& valid_round_exp(self.next_round_exp)
    }

    /// The hash of our latest own unit known to the state, if any.
    pub open spec fn spec_own_tip(&self, s: &State) -> Option<u64> {
        match s.pan@[self.vidx.0 as int] {
            Observation::Correct(h) => Some(h),
            _ => None,
        }
    }

    /// The earliest timestamp at which we may cast our next unit: not
    /// earlier than our previous unit, and never a third unit inside one
    /// round.
    pub open spec fn spec_earliest_unit_time(&self, s: &State) -> u64 {
        match self.spec_own_tip(s) {
            None => 0,
            Some(h) => {
                let j = spec_index_of(s.units@, h);
                if j is Some {
                    let w = s.spec_wire(j.unwrap());
                    match w.panorama[w.creator as int] {
                        Observation::Correct(h2) => {
                            let j2 = spec_index_of(s.units@, h2);
                            if j2 is Some {
                                let w2 = s.spec_wire(j2.unwrap());
                                let round_end = sat_add(
                                    spec_round_id(w2.timestamp, w2.round_exp),
                                    spec_round_len(w2.round_exp),
                                );
                                if w.timestamp >= round_end {
                                    w.timestamp
                                } else {
                                    round_end
                                }
                            } else {
                                w.timestamp
                            }
                        },
                        _ => w.timestamp,
                    }
                } else {
                    0
                }
            },
        }
    }

    /// The round exponent of the round containing `t`: the next round
    /// exponent, unless our latest unit was cast in a round that still
    /// contains `t`, in which case we keep that unit's exponent.
    pub open spec fn spec_round_exp(&self, s: &State, t: u64) -> u8 {
        match self.spec_own_tip(s) {
            None => self.next_round_exp,
            Some(h) => {
                let j = spec_index_of(s.units@, h);
                if j is Some {
                    let w = s.spec_wire(j.unwrap());
                    let max_re = if self.next_round_exp >= w.round_exp {
                        self.next_round_exp
                    } else {
                        w.round_exp
                    };
                    if w.timestamp < spec_round_id(t, max_re) {
                        self.next_round_exp
                    } else {
                        w.round_exp
                    }
                } else {
                    self.next_round_exp
                }
            },
        }
    }

    /// The time of the next tick we must be woken at, from time `t`: this
    /// round's witness tick if still ahead, else the next round's proposal
    /// tick if we lead it, else the next round's witness tick.
    pub open spec fn spec_next_timer(&self, s: &State, t: u64) -> u64 {
        let re = self.spec_round_exp(s, t);
        let rid = spec_round_id(t, re);
        let rlen = spec_round_len(re);
        let wo = spec_witness_offset(rlen);
        if t < sat_add(rid, wo) {
            sat_add(rid, wo)
        } else {
            let nrid = sat_add(rid, rlen);
            if s.spec_leader(nrid) == self.vidx.0 as int {
                nrid
            } else {
                let nre = self.spec_round_exp(s, nrid);
                sat_add(nrid, spec_witness_offset(spec_round_len(nre)))
            }
        }
    }

    /// The index of our latest own unit, if the state knows one.
    fn latest_unit(&self, s: &State) -> (r: Option<usize>)
        requires
            s.wf(),
            self.wf(s),
        ensures
            match r {
                Some(j) => {
                    &&& self.spec_own_tip(s) is Some
                    &&& spec_index_of(s.units@, self.spec_own_tip(s).unwrap()) == Some(
                        j as int,
                    )
                    &&& j < s.units@.len()
                    &&& s.spec_wire(j as int).creator == self.vidx.0
                },
                None => self.spec_own_tip(s) is None,
            },
    {
        match s.panorama().get(self.vidx) {
            Observation::Correct(h) => {
                proof {
                    crate::state::lemma_find_from(s.units@, h, 0);
                    assert(s.spec_pan_slot_wf(self.vidx.0 as int));
                }
                s.find_unit(h)
            },
            _ => None,
        }
    }

    /// Checks whether the state knows this validator to be faulty.
    pub fn is_faulty(&self, s: &State) -> (r: bool)
        requires
            s.wf(),
            self.wf(s),
        ensures
            r == s.spec_is_faulty(self.vidx.0 as int),
    {
        proof {
            assert(s.spec_pan_slot_wf(self.vidx.0 as int));
        }
        s.panorama().get(self.vidx).is_faulty()
    }

    /// The duration after the beginning of a round at which its witness
    /// unit is due: two thirds of the round length.
    pub fn witness_offset(&self, r_len: TimeDiff) -> (r: TimeDiff)
        requires
            r_len.millis <= 0x8000_0000_0000_0000,
        ensures
            r.millis == spec_witness_offset(r_len.millis),
    {
        witness_offset_of(r_len)
    }

    /// Computes the earliest timestamp at which we may cast our next unit.
    pub fn earliest_unit_time(&self, s: &State) -> (r: Timestamp)
        requires
            s.wf(),
            self.wf(s),
        ensures
            r.millis == self.spec_earliest_unit_time(s),
    {
        let j = match self.latest_unit(s) {
            Some(j) => j,
            None => {
                return Timestamp::zero();
            },
        };
        proof {
            assert(s.spec_unit_wf(j as int));
        }
        let w = &s.units[j].swu.wire_unit;
        match w.panorama.get(w.creator) {
            Observation::Correct(h2) => {
                proof {
                    crate::state::lemma_find_from(s.units@, h2, 0);
                }
                let j2 = s.find_unit(h2).unwrap();
                proof {
                    assert(s.spec_unit_wf(j2 as int));
                }
                let w2 = &s.units[j2].swu.wire_unit;
                let rid = round_id(w2.timestamp, w2.round_exp);
                let round_end = rid.saturating_plus(round_len(w2.round_exp));
                w.timestamp.max(round_end)
            },
            _ => w.timestamp,
        }
    }

    /// Computes the round exponent for a unit cast at `t`.
    pub fn round_exp(&self, s: &State, t: Timestamp) -> (r: u8)
        requires
            s.wf(),
            self.wf(s),
        ensures
            r == self.spec_round_exp(s, t.millis),
            valid_round_exp(r),
    {
        let j = match self.latest_unit(s) {
            Some(j) => j,
            None => {
                return self.next_round_exp;
            },
        };
        proof {
            assert(s.spec_unit_wf(j as int));
        }
        let w = &s.units[j].swu.wire_unit;
        let max_re = if self.next_round_exp >= w.round_exp {
            self.next_round_exp
        } else {
            w.round_exp
        };
        if w.timestamp.millis < round_id(t, max_re).millis {
            self.next_round_exp
        } else {
            w.round_exp
        }
    }

    /// Schedules the next timer tick.  A newly scheduled timer never shrinks
    /// `next_timer`: a tick earlier than the already scheduled one is not
    /// re-scheduled, and nothing is emitted for it.
    pub fn schedule_timer(&mut self, t: Timestamp, s: &State) -> (r: Vec<Effect>)
        requires
            s.wf(),
            old(self).wf(s),
        ensures
            final(self).wf(s),
            final(self).vidx == old(self).vidx,
            final(self).secret == old(self).secret,
            final(self).next_round_exp == old(self).next_round_exp,
            final(self).next_proposal == old(self).next_proposal,
            // Timers are coalesced: a newly scheduled timer never shrinks
            // `next_timer`, it only advances it.
            final(self).next_timer.millis >= old(self).next_timer.millis,
            old(self).next_timer.millis > t.millis ==> r@ =~= Seq::<Effect>::empty()
                && final(self).next_timer == old(self).next_timer,
            old(self).next_timer.millis <= t.millis ==> {
                &&& final(self).next_timer.millis == old(self).spec_next_timer(s, t.millis)
                &&& r@ =~= seq![Effect::ScheduleTimer(final(self).next_timer)]
            },
    {
        if self.next_timer.millis > t.millis {
            return Vec::new();
        }
        let re = self.round_exp(s, t);
        let rid = round_id(t, re);
        let rlen = round_len(re);
        let wo = witness_offset_of(rlen);
        let this_witness = rid.saturating_plus(wo);
        if t.millis < this_witness.millis {
            self.next_timer = this_witness;
        } else {
            let nrid = rid.saturating_plus(rlen);
            if s.leader(nrid).0 == self.vidx.0 {
                self.next_timer = nrid;
            } else {
                let nre = self.round_exp(s, nrid);
                self.next_timer = nrid.saturating_plus(witness_offset_of(round_len(nre)));
            }
        }
        let mut out: Vec<Effect> = Vec::new();
        out.push(Effect::ScheduleTimer(self.next_timer));
        out
    }
}

impl ActiveValidator {
    /// Creates a new active validator and the timer effect for its first
    /// call.
    pub fn new(vidx: ValidatorIndex, secret: SecretKey, start_time: Timestamp, s: &State) -> (r:
        (ActiveValidator, Vec<Effect>))
        requires
            s.wf(),
            (vidx.0 as int) < s.spec_n(),
        ensures
            r.0.wf(s),
            r.0.vidx == vidx,
            r.0.secret == secret,
            r.0.next_round_exp == s.params.init_round_exp,
            r.0.next_proposal is None,
            r.0.next_timer.millis == (ActiveValidator {
                vidx,
                secret,
                next_round_exp: s.params.init_round_exp,
                next_timer: Timestamp { millis: 0 },
                next_proposal: None,
            }).spec_next_timer(s, start_time.millis),
            r.1@ =~= seq![Effect::ScheduleTimer(r.0.next_timer)],
    {
        let mut av = ActiveValidator {
            vidx,
            secret,
            next_round_exp: s.params().init_round_exp(),
            next_timer: Timestamp::zero(),
            next_proposal: None,
        };
        let effects = av.schedule_timer(start_time, s);
        (av, effects)
    }

    /// Sets the next round exponent to the new value.
    pub fn set_round_exp(&mut self, new_round_exp: u8)
        requires
            valid_round_exp(new_round_exp),
        ensures
            *final(self) == (ActiveValidator { next_round_exp: new_round_exp, ..*old(self) }),
    {
        self.next_round_exp = new_round_exp;
    }

    /// The content of a new own unit citing `p`, cast at `t`: the sequence
    /// number follows our cited predecessor, the endorsed set is what the
    /// panorama shows as endorsed, and the signature binds the canonical
    /// hash.  If `p` does not cite our own latest unit, the full citable
    /// panorama is cited instead, so the unit can never equivocate.
    pub open spec fn spec_new_unit(
        &self,
        s: &State,
        p: Seq<Observation>,
        t: u64,
        value: Option<u64>,
        iid: u64,
    ) -> SignedUnitModel {
        let q = if p[self.vidx.0 as int] == s.pan@[self.vidx.0 as int] {
            p
        } else {
            s.pan@
        };
        let unit = crate::codec::UnitModel {
            panorama: q,
            creator: self.vidx.0,
            instance_id: iid,
            value,
            seq_number: s.spec_next_seq(q, self.vidx.0 as int) as u64,
            timestamp: t,
            round_exp: self.spec_round_exp(s, t),
            endorsed: s.spec_seen_endorsed_prefix(q, s.units@.len() as int),
        };
        SignedUnitModel { unit, sig: spec_sign(self.secret.key, spec_unit_hash(unit)) }
    }

    /// Builds and signs a new own unit with the given panorama, timestamp
    /// and optional value.  Any pending proposal is cancelled: a unit for
    /// the same slot supersedes it.
    fn new_unit(
        &mut self,
        panorama: Panorama,
        timestamp: Timestamp,
        value: Option<u64>,
        s: &State,
        instance_id: u64,
    ) -> (r: SignedWireUnit)
        requires
            s.wf(),
            old(self).wf(s),
            crate::state::spec_pan_cites(s, panorama@),
        ensures
            final(self).wf(s),
            *final(self) == (ActiveValidator { next_proposal: None, ..*old(self) }),
            r@ == old(self).spec_new_unit(s, panorama@, timestamp.millis, value, instance_id),
    {
        self.next_proposal = None;
        let own_slot = panorama.get(self.vidx);
        let state_slot = s.panorama().get(self.vidx);
        let same: bool = match (own_slot, state_slot) {
            (Observation::Null, Observation::Null) => true,
            (Observation::Correct(a), Observation::Correct(b)) => a == b,
            (Observation::Faulty, Observation::Faulty) => true,
            _ => false,
        };
        let q: Panorama = if same {
            panorama
        } else {
            s.citable_panorama()
        };
        proof {
            s.lemma_global_pan_cites();
        }
        let seq_number = s.next_seq_num(&q, self.vidx);
        let endorsed = s.seen_endorsed(&q);
        let wire_unit = WireUnit {
            panorama: q,
            creator: self.vidx,
            instance_id,
            value,
            seq_number,
            timestamp,
            round_exp: self.round_exp(s, timestamp),
            endorsed,
        };
        let h = crate::codec::hash_wire_unit(&wire_unit);
        let signature = self.secret.sign(h);
        SignedWireUnit { wire_unit, signature }
    }

    /// Whether we should endorse the unit with hash `h`: its creator is
    /// honest and its panorama newly cites a unit by some validator known to
    /// be faulty.
    pub open spec fn spec_should_endorse(&self, s: &State, h: u64) -> bool {
        let j = spec_index_of(s.units@, h);
        &&& j is Some
        &&& !s.spec_is_faulty(s.spec_wire(j.unwrap()).creator as int)
        &&& exists|v: int|
            0 <= v < s.spec_n() && #[trigger] s.spec_is_faulty(v) && s.spec_new_hash_obs(
                j.unwrap(),
                v,
            )
    }

    /// Decides whether to endorse the accepted unit with hash `h`.
    pub fn should_endorse(&self, h: u64, s: &State) -> (r: bool)
        requires
            s.wf(),
            self.wf(s),
            spec_has_unit(s.units@, h),
        ensures
            r == self.spec_should_endorse(s, h),
    {
        proof {
            crate::state::lemma_find_from(s.units@, h, 0);
        }
        let j = s.find_unit(h).unwrap();
        proof {
            assert(s.spec_unit_wf(j as int));
        }
        let creator = s.units[j].swu.wire_unit.creator;
        if s.is_faulty(creator) {
            return false;
        }
        let n = s.validators.len();
        let mut v: usize = 0;
        while v < n
            invariant
                s.wf(),
                spec_has_unit(s.units@, h),
                Some(j as int) == spec_index_of(s.units@, h),
                j < s.units@.len(),
                !s.spec_is_faulty(s.spec_wire(j as int).creator as int),
                0 <= v <= n,
                n == s.spec_n(),
                forall|k: int|
                    0 <= k < v ==> !(#[trigger] s.spec_is_faulty(k) && s.spec_new_hash_obs(
                        j as int,
                        k,
                    )),
            decreases n - v,
        {
            let vi = ValidatorIndex(v as u32);
            if s.is_faulty(vi) && s.new_hash_obs(h, vi) {
                proof {
                    assert(s.spec_is_faulty(v as int) && s.spec_new_hash_obs(
                        j as int,
                        v as int,
                    ));
                }
                return true;
            }
            v = v + 1;
        }
        false
    }

    /// The signed endorsement of the unit with hash `h` by this validator.
    pub open spec fn spec_endorsement(&self, h: u64) -> SignedEndorsement {
        let e = Endorsement { unit_hash: h, endorser: self.vidx };
        SignedEndorsement {
            endorsement: e,
            signature: crate::crypto::Signature {
                sig: spec_sign(self.secret.key, crate::codec::spec_endorsement_hash(e)),
            },
        }
    }

    /// Signs an endorsement of the unit with hash `h` and wraps it as a
    /// vertex.
    pub fn endorse(&self, h: u64) -> (r: Vertex)
        ensures
            match r {
                Vertex::Endorsements(e) => e@ =~= seq![self.spec_endorsement(h)],
                _ => false,
            },
    {
        let endorsement = Endorsement::new(h, self.vidx);
        let eh = crate::codec::hash_endorsement(&endorsement);
        let signature = self.secret.sign(eh);
        let mut list: Vec<SignedEndorsement> = Vec::new();
        list.push(SignedEndorsement::new(endorsement, signature));
        Vertex::Endorsements(Endorsements::new(list))
    }

    /// Whether the accepted unit with hash `h` is a proposal we must
    /// confirm: cast by an honest peer as a correct proposal of the current
    /// round, not in the future, not already seen by our latest unit, and
    /// only while we may cast a unit at `now` at all.
    pub open spec fn spec_should_send_confirmation(&self, s: &State, h: u64, now: u64) -> bool {
        let j = spec_index_of(s.units@, h);
        let w = s.spec_wire(j.unwrap());
        &&& j is Some
        &&& now >= self.spec_earliest_unit_time(s)
        &&& w.timestamp <= now
        &&& w.creator != self.vidx.0
        &&& !s.spec_is_faulty(self.vidx.0 as int)
        &&& s.spec_is_correct_proposal(j.unwrap())
        &&& match self.spec_own_tip(s) {
            Some(tip) => {
                let tj = spec_index_of(s.units@, tip);
                !(tj is Some && s.spec_sees_correct(s.spec_wire(tj.unwrap()).panorama, h))
            },
            None => true,
        }
        &&& w.timestamp == spec_round_id(now, self.spec_round_exp(s, now))
    }

    /// Decides whether to send a confirmation for the unit with hash `h`.
    pub fn should_send_confirmation(&self, h: u64, now: Timestamp, s: &State) -> (r: bool)
        requires
            s.wf(),
            self.wf(s),
            spec_has_unit(s.units@, h),
        ensures
            r == self.spec_should_send_confirmation(s, h, now.millis),
    {
        let earliest = self.earliest_unit_time(s);
        if now.millis < earliest.millis {
            return false;
        }
        proof {
            crate::state::lemma_find_from(s.units@, h, 0);
        }
        let j = s.find_unit(h).unwrap();
        proof {
            assert(s.spec_unit_wf(j as int));
        }
        let w = &s.units[j].swu.wire_unit;
        if w.timestamp.millis > now.millis {
            return false;
        }
        if w.creator.0 == self.vidx.0 || self.is_faulty(s) || !s.is_correct_proposal(j) {
            return false;
        }
        match self.latest_unit(s) {
            Some(tj) => {
                proof {
                    assert(s.spec_unit_wf(tj as int));
                }
                if s.sees_correct(&s.units[tj].swu.wire_unit.panorama, h) {
                    return false;
                }
            },
            None => {},
        }
        let rid = round_id(now, self.round_exp(s, now));
        w.timestamp.millis == rid.millis
    }
}

impl ActiveValidator {
    /// The cutoff of the citable panorama at time `t`: what a unit cast at
    /// `t` cites.
    pub open spec fn spec_citable_cutoff(&self, s: &State, t: u64) -> Seq<Observation> {
        Seq::new(s.pan@.len(), |v: int| s.spec_cutoff_slot(s.pan@[v], t))
    }

    /// Requests a consensus value for a block to propose at `t`.
    ///
    /// Returns `None`, changing nothing, while a previous request is still
    /// outstanding.  If the fork choice is already a terminal block the
    /// proposal unit is emitted immediately and without a value (the era has
    /// ended); otherwise the panorama is stashed and the host is asked for a
    /// value at the fork choice's child height.
    pub fn request_new_block(&mut self, s: &State, instance_id: u64, t: Timestamp) -> (r:
        Option<Effect>)
        requires
            s.wf(),
            old(self).wf(s),
        ensures
            final(self).wf(s),
            final(self).vidx == old(self).vidx,
            final(self).secret == old(self).secret,
            final(self).next_round_exp == old(self).next_round_exp,
            final(self).next_timer == old(self).next_timer,
            old(self).next_proposal is Some ==> r is None && *final(self) == *old(self),
            old(self).next_proposal is None ==> {
                let pano = old(self).spec_citable_cutoff(s, t.millis);
                let fc = s.spec_fork_choice(pano);
                if fc is Some && s.spec_is_terminal_block(fc.unwrap()) {
                    &&& final(self).next_proposal is None
                    &&& r is Some
                    &&& spec_is_unit_effect(
                        r.unwrap(),
                        old(self).spec_new_unit(s, pano, t.millis, None, instance_id),
                    )
                } else {
                    &&& final(self).next_proposal is Some
                    &&& final(self).next_proposal.unwrap().0 == t
                    &&& final(self).next_proposal.unwrap().1@ == pano
                    &&& r == Some(
                        Effect::RequestNewBlock(
                            BlockContext {
                                timestamp: t,
                                height: if fc is Some {
                                    let j = spec_index_of(s.units@, fc.unwrap());
                                    (s.units@[j.unwrap()].block.unwrap().height + 1) as u64
                                } else {
                                    0
                                },
                            },
                        ),
                    )
                }
            },
    {
        if self.next_proposal.is_some() {
            return None;
        }
        proof {
            s.lemma_global_pan_cites();
        }
        let citable = s.citable_panorama();
        let panorama = s.panorama_cutoff(&citable, t);
        proof {
            assert(panorama@ =~= self.spec_citable_cutoff(s, t.millis));
        }
        let opt_parent_hash = s.fork_choice(&panorama);
        match opt_parent_hash {
            Some(parent) => {
                if s.is_terminal_block(parent) {
                    let unit = self.new_unit(panorama, t, None, s, instance_id);
                    return Some(Effect::NewVertex(ValidVertex(Vertex::Unit(unit))));
                }
                proof {
                    crate::state::lemma_find_from(s.units@, parent, 0);
                    s.lemma_height_le_index(spec_index_of(s.units@, parent).unwrap());
                }
                let arena_len = s.units.len();
                let height = s.unit(parent).block.unwrap().height + 1;
                self.next_proposal = Some((t, panorama));
                Some(Effect::RequestNewBlock(BlockContext::new(t, height)))
            },
            None => {
                self.next_proposal = Some((t, panorama));
                Some(Effect::RequestNewBlock(BlockContext::new(t, 0)))
            },
        }
    }

    /// Proposes a new block with the given consensus value.
    ///
    /// The value is dropped, and nothing is emitted, if the round has
    /// advanced past the requested timestamp, if this validator knows itself
    /// faulty, or if no pending request matches the context's timestamp.
    pub fn propose(
        &mut self,
        value: u64,
        block_context: BlockContext,
        s: &State,
        instance_id: u64,
    ) -> (r: Vec<Effect>)
        requires
            s.wf(),
            old(self).wf(s),
            match old(self).next_proposal {
                Some(pending) => crate::state::spec_pan_cites(s, pending.1@),
                None => true,
            },
        ensures
            final(self).wf(s),
            final(self).vidx == old(self).vidx,
            final(self).secret == old(self).secret,
            final(self).next_round_exp == old(self).next_round_exp,
            final(self).next_timer == old(self).next_timer,
            ({
                let t = block_context.timestamp.millis;
                if old(self).spec_earliest_unit_time(s) > t || s.spec_is_faulty(
                    old(self).vidx.0 as int,
                ) {
                    r@ =~= Seq::<Effect>::empty() && *final(self) == *old(self)
                } else {
                    match old(self).next_proposal {
                        Some(pending) => {
                            if pending.0 != block_context.timestamp {
                                r@ =~= Seq::<Effect>::empty() && *final(self) == (
                                ActiveValidator { next_proposal: None, ..*old(self) })
                            } else {
                                &&& final(self).next_proposal is None
                                &&& r@.len() == 1
                                &&& spec_is_unit_effect(
                                    r@[0],
                                    old(self).spec_new_unit(
                                        s,
                                        pending.1@,
                                        t,
                                        Some(value),
                                        instance_id,
                                    ),
                                )
                                &&& r@[0] is NewVertex
                            }
                        },
                        None => r@ =~= Seq::<Effect>::empty() && *final(self) == *old(self),
                    }
                }
            }),
            // An honest own unit is never cast before its earliest allowed
            // time.
            forall|i: int|
                0 <= i < r@.len() ==> match #[trigger] r@[i] {
                    Effect::NewVertex(vv) => match vv.0 {
                        Vertex::Unit(swu) => swu@.unit.timestamp >= old(self).spec_earliest_unit_time(s),
                        _ => true,
                    },
                    _ => true,
                },
    {
        let timestamp = block_context.timestamp();
        let earliest = self.earliest_unit_time(s);
        if earliest.millis > timestamp.millis {
            return Vec::new();
        }
        if self.is_faulty(s) {
            return Vec::new();
        }
        let panorama = match &self.next_proposal {
            Some(pair) => {
                if pair.0.millis != timestamp.millis {
                    self.next_proposal = None;
                    return Vec::new();
                }
                let panorama = pair.1.duplicate();
                self.next_proposal = None;
                panorama
            },
            None => {
                return Vec::new();
            },
        };
        proof {
            assert(old(self).next_proposal.unwrap().0 == timestamp) by {
                assert(old(self).next_proposal.unwrap().0.millis == timestamp.millis);
            }
        }
        let unit = self.new_unit(panorama, timestamp, Some(value), s, instance_id);
        let mut out: Vec<Effect> = Vec::new();
        out.push(Effect::NewVertex(ValidVertex(Vertex::Unit(unit))));
        out
    }

    /// Reacts to a newly accepted unit: surfaces our own equivocation if the
    /// state now proves one, confirms a proposal of the current round, and
    /// endorses units that newly cite a known equivocator.
    pub fn on_new_unit(&mut self, vhash: u64, now: Timestamp, s: &State, instance_id: u64) -> (r:
        Vec<Effect>)
        requires
            s.wf(),
            old(self).wf(s),
            spec_has_unit(s.units@, vhash),
        ensures
            final(self).wf(s),
            final(self).vidx == old(self).vidx,
            final(self).secret == old(self).secret,
            final(self).next_round_exp == old(self).next_round_exp,
            final(self).next_timer == old(self).next_timer,
            s.spec_is_faulty(old(self).vidx.0 as int) ==> r@.len() == 1 && (match r@[0] {
                Effect::WeEquivocated(e) => e@ == s.faults@[old(self).vidx.0 as int].unwrap()@,
                _ => false,
            }) && *final(self) == *old(self),
            !s.spec_is_faulty(old(self).vidx.0 as int) ==> {
                let confirm = old(self).spec_should_send_confirmation(s, vhash, now.millis)
                    && old(self).spec_confirmation_has_correct(s, vhash);
                let endorse = old(self).spec_should_endorse(s, vhash);
                &&& r@.len() == (if confirm {
                    1int
                } else {
                    0int
                }) + (if endorse {
                    1int
                } else {
                    0int
                })
                &&& (confirm ==> spec_is_unit_effect(
                    r@[0],
                    old(self).spec_new_unit(
                        s,
                        Seq::new(
                            s.spec_n() as nat,
                            |k: int| old(self).spec_confirmation_obs(s, vhash, k),
                        ),
                        now.millis,
                        None,
                        instance_id,
                    ),
                ))
                &&& (endorse ==> match r@[r@.len() - 1] {
                    Effect::NewVertex(vv) => match vv.0 {
                        Vertex::Endorsements(e) => e@ =~= seq![
                            old(self).spec_endorsement(vhash),
                        ],
                        _ => false,
                    },
                    _ => false,
                })
            },
            forall|i: int|
                0 <= i < r@.len() ==> match #[trigger] r@[i] {
                    Effect::NewVertex(vv) => match vv.0 {
                        Vertex::Unit(swu) => swu@.unit.timestamp >= old(self).spec_earliest_unit_time(s),
                        _ => true,
                    },
                    _ => true,
                },
    {
        match s.opt_evidence(self.vidx) {
            Some(ev) => {
                let mut out: Vec<Effect> = Vec::new();
                out.push(Effect::WeEquivocated(ev.duplicate()));
                return out;
            },
            None => {},
        }
        let mut out: Vec<Effect> = Vec::new();
        let ghost cpan = Seq::new(
            s.spec_n() as nat,
            |k: int| old(self).spec_confirmation_obs(s, vhash, k),
        );
        let ghost confirm = old(self).spec_should_send_confirmation(s, vhash, now.millis)
            && old(self).spec_confirmation_has_correct(s, vhash);
        if self.should_send_confirmation(vhash, now, s) {
            let panorama = s.confirmation_panorama(self.vidx, vhash);
            proof {
                assert(panorama@ =~= cpan);
            }
            if panorama.has_correct() {
                proof {
                    assert(confirm);
                    self.lemma_confirmation_panorama_cites(s, vhash);
                }
                let unit = self.new_unit(panorama, now, None, s, instance_id);
                proof {
                    assert(unit@ == old(self).spec_new_unit(
                        s,
                        cpan,
                        now.millis,
                        None,
                        instance_id,
                    ));
                    assert(unit@.unit.timestamp == now.millis);
                }
                out.push(Effect::NewVertex(ValidVertex(Vertex::Unit(unit))));
            } else {
                proof {
                    assert(!panorama.spec_has_correct());
                    assert forall|v: int|
                        0 <= v < s.spec_n() implies !(#[trigger] old(
                        self,
                    ).spec_confirmation_obs(s, vhash, v) is Correct) by {
                        assert(panorama@[v] == cpan[v]);
                    }
                    assert(!confirm);
                }
            }
        } else {
            proof {
                assert(!confirm);
            }
        }
        proof {
            assert(out@.len() == if confirm {
                1int
            } else {
                0int
            });
        }
        if self.should_endorse(vhash, s) {
            let vertex = self.endorse(vhash);
            out.push(Effect::NewVertex(ValidVertex(vertex)));
        }
        out
    }

    /// One slot of the confirmation panorama we would cite for `vhash`.
    pub open spec fn spec_confirmation_obs(&self, s: &State, vhash: u64, k: int) -> Observation {
        s.spec_confirmation_slot(self.vidx.0 as int, vhash, k)
    }

    /// Whether the confirmation panorama for `vhash` sees any unit at all.
    pub open spec fn spec_confirmation_has_correct(&self, s: &State, vhash: u64) -> bool {
        exists|v: int|
            0 <= v < s.spec_n() && #[trigger] self.spec_confirmation_obs(s, vhash, v)
                is Correct
    }

    /// The confirmation panorama cites only accepted units.
    pub proof fn lemma_confirmation_panorama_cites(&self, s: &State, vhash: u64)
        requires
            s.wf(),
            self.wf(s),
            spec_has_unit(s.units@, vhash),
        ensures
            crate::state::spec_pan_cites(
                s,
                Seq::new(s.spec_n() as nat, |k: int| self.spec_confirmation_obs(s, vhash, k)),
            ),
    {
        let p = Seq::new(s.spec_n() as nat, |k: int| self.spec_confirmation_obs(s, vhash, k));
        crate::state::lemma_find_from(s.units@, vhash, 0);
        let pi = spec_index_of(s.units@, vhash).unwrap();
        assert(s.spec_unit_wf(pi));
        let own = self.vidx.0 as int;
        assert(s.spec_pan_slot_wf(own));
        assert forall|v: int| 0 <= v < s.spec_n() implies match #[trigger] p[v] {
            Observation::Correct(h) => {
                let j = spec_index_of(s.units@, h);
                j is Some && s.spec_wire(j.unwrap()).creator == v
            },
            Observation::Faulty => s.spec_is_faulty(v),
            Observation::Null => true,
        } by {
            assert(s.spec_pan_slot_wf(v));
            let pw = s.spec_wire(pi);
            if s.spec_is_faulty(v) {
            } else if v == pw.creator as int {
            } else {
                match s.pan@[own] {
                    Observation::Correct(own_tip) => {
                        let oj = spec_index_of(s.units@, own_tip);
                        assert(oj is Some);
                        crate::state::lemma_find_from(s.units@, own_tip, 0);
                        assert(s.spec_unit_wf(oj.unwrap()));
                        if v == own {
                        } else {
                            let a = pw.panorama[v];
                            let b = s.spec_wire(oj.unwrap()).panorama[v];
                            assert(s.spec_merge_obs(a, b) == a || s.spec_merge_obs(a, b) == b);
                        }
                    },
                    _ => {},
                }
            }
        }
    }

    /// Reacts to new evidence: endorses every unit by an honest creator
    /// that newly cites a unit by the perpetrator, declaring which side of
    /// the fork this node witnessed.
    pub fn on_new_evidence(&mut self, evidence: &Evidence, s: &State) -> (r: Vec<Effect>)
        requires
            s.wf(),
            old(self).wf(s),
            (evidence.unit1.wire_unit@.creator as int) < s.spec_n(),
        ensures
            *final(self) == *old(self),
            r@.len() == old(self).spec_endorsable_prefix(
                s,
                evidence.unit1.wire_unit@.creator as int,
                s.units@.len() as int,
            ).len(),
            forall|i: int|
                0 <= i < r@.len() ==> match #[trigger] r@[i] {
                    Effect::NewVertex(vv) => match vv.0 {
                        Vertex::Endorsements(e) => e@ =~= seq![
                            old(self).spec_endorsement(
                                old(self).spec_endorsable_prefix(
                                    s,
                                    evidence.unit1.wire_unit@.creator as int,
                                    s.units@.len() as int,
                                )[i],
                            ),
                        ],
                        _ => false,
                    },
                    _ => false,
                },
    {
        let vidx = evidence.perpetrator();
        let hashes = s.iter_correct_hashes();
        let mut out: Vec<Effect> = Vec::new();
        let n = hashes.len();
        let mut i: usize = 0;
        while i < n
            invariant
                s.wf(),
                self.wf(s),
                (vidx.0 as int) < s.spec_n(),
                *self == *old(self),
                hashes@ == s.spec_correct_hashes_prefix(s.units@.len() as int),
                n == hashes@.len(),
                0 <= i <= n,
                out@.len() == self.spec_endorsable_sub(s, vidx.0 as int, hashes@, i as int).len(),
                forall|k: int|
                    0 <= k < out@.len() ==> match #[trigger] out@[k] {
                        Effect::NewVertex(vv) => match vv.0 {
                            Vertex::Endorsements(e) => e@ =~= seq![
                                self.spec_endorsement(
                                    self.spec_endorsable_sub(
                                        s,
                                        vidx.0 as int,
                                        hashes@,
                                        i as int,
                                    )[k],
                                ),
                            ],
                            _ => false,
                        },
                        _ => false,
                    },
            decreases n - i,
        {
            let h = hashes[i];
            proof {
                self.lemma_correct_hashes_exist(s, s.units@.len() as int, i as int);
            }
            if s.new_hash_obs(h, vidx) {
                let vertex = self.endorse(h);
                out.push(Effect::NewVertex(ValidVertex(vertex)));
            }
            proof {
                assert(self.spec_endorsable_sub(s, vidx.0 as int, hashes@, i + 1 as int)
                    =~= if s.spec_new_hash_obs(
                    spec_index_of(s.units@, hashes@[i as int]).unwrap(),
                    vidx.0 as int,
                ) {
                    self.spec_endorsable_sub(s, vidx.0 as int, hashes@, i as int) + seq![
                        hashes@[i as int],
                    ]
                } else {
                    self.spec_endorsable_sub(s, vidx.0 as int, hashes@, i as int)
                });
            }
            i = i + 1;
        }
        proof {
            assert(self.spec_endorsable_sub(s, vidx.0 as int, hashes@, n as int)
                =~= self.spec_endorsable_prefix(s, vidx.0 as int, s.units@.len() as int));
        }
        out
    }

    /// The hashes among the first `i` entries of `hs` whose units newly
    /// observe validator `v`.
    pub open spec fn spec_endorsable_sub(&self, s: &State, v: int, hs: Seq<u64>, i: int) -> Seq<
        u64,
    >
        decreases i,
    {
        if i <= 0 || i > hs.len() {
            Seq::empty()
        } else {
            let rest = self.spec_endorsable_sub(s, v, hs, i - 1);
            let j = spec_index_of(s.units@, hs[i - 1]);
            if j is Some && s.spec_new_hash_obs(j.unwrap(), v) {
                rest + seq![hs[i - 1]]
            } else {
                rest
            }
        }
    }

    /// The hashes of correct-creator units that newly observe validator `v`:
    /// the units to endorse when evidence against `v` arrives.
    pub open spec fn spec_endorsable_prefix(&self, s: &State, v: int, upto: int) -> Seq<u64> {
        self.spec_endorsable_sub(s, v, s.spec_correct_hashes_prefix(upto), s.spec_correct_hashes_prefix(upto).len() as int)
    }

    /// Every listed correct hash is an accepted unit.
    pub proof fn lemma_correct_hashes_exist(&self, s: &State, upto: int, i: int)
        requires
            s.wf(),
            0 <= upto <= s.units@.len(),
            0 <= i < s.spec_correct_hashes_prefix(upto).len(),
        ensures
            spec_has_unit(s.units@, s.spec_correct_hashes_prefix(upto)[i]),
        decreases upto,
    {
        if upto > 0 {
            let rest = s.spec_correct_hashes_prefix(upto - 1);
            if i < rest.len() {
                self.lemma_correct_hashes_exist(s, upto - 1, i);
            } else {
                crate::state::lemma_find_from(s.units@, s.units@[upto - 1].hash, 0);
            }
        }
    }
}

impl ActiveValidator {
    /// The actions a validator takes at timer tick `t`.
    ///
    /// A validator that knows itself faulty is deactivated and does
    /// nothing.  Otherwise the next tick is scheduled first; a stale tick
    /// (before our earliest allowed unit time) does nothing more.  At a
    /// round's start, its leader requests a block to propose; at the
    /// round's witness offset, a witness unit citing everything seen so far
    /// is emitted.
    pub fn handle_timer(&mut self, timestamp: Timestamp, s: &State, instance_id: u64) -> (r:
        Vec<Effect>)
        requires
            s.wf(),
            old(self).wf(s),
        ensures
            final(self).wf(s),
            final(self).vidx == old(self).vidx,
            final(self).secret == old(self).secret,
            final(self).next_round_exp == old(self).next_round_exp,
            // A validator that knows itself faulty creates no message.
            s.spec_is_faulty(old(self).vidx.0 as int) ==> r@ =~= Seq::<Effect>::empty()
                && *final(self) == *old(self),
            !s.spec_is_faulty(old(self).vidx.0 as int) ==> {
                let t = timestamp.millis;
                let sched: Seq<Effect> = if old(self).next_timer.millis > t {
                    Seq::empty()
                } else {
                    seq![
                        Effect::ScheduleTimer(
                            Timestamp { millis: old(self).spec_next_timer(s, t) },
                        ),
                    ]
                };
                let re = old(self).spec_round_exp(s, t);
                let rid = spec_round_id(t, re);
                let wo = spec_witness_offset(spec_round_len(re));
                &&& (old(self).spec_earliest_unit_time(s) > t ==> r@ =~= sched)
                &&& (old(self).spec_earliest_unit_time(s) <= t && t == rid && s.spec_leader(
                    rid,
                ) == old(self).vidx.0 as int ==> {
                    if old(self).next_proposal is Some {
                        r@ =~= sched
                    } else {
                        let pano = old(self).spec_citable_cutoff(s, t);
                        let fc = s.spec_fork_choice(pano);
                        &&& r@.len() == sched.len() + 1
                        &&& r@.subrange(0, sched.len() as int) =~= sched
                        &&& if fc is Some && s.spec_is_terminal_block(fc.unwrap()) {
                            spec_is_unit_effect(
                                r@[sched.len() as int],
                                old(self).spec_new_unit(s, pano, t, None, instance_id),
                            )
                        } else {
                            r@[sched.len() as int] == Effect::RequestNewBlock(
                                BlockContext {
                                    timestamp,
                                    height: if fc is Some {
                                        let j = spec_index_of(s.units@, fc.unwrap());
                                        (s.units@[j.unwrap()].block.unwrap().height + 1) as u64
                                    } else {
                                        0
                                    },
                                },
                            )
                        }
                    }
                })
                &&& (old(self).spec_earliest_unit_time(s) <= t && !(t == rid && s.spec_leader(
                    rid,
                ) == old(self).vidx.0 as int) && t == sat_add(rid, wo) ==> {
                    let pano = old(self).spec_citable_cutoff(s, t);
                    if exists|v: int|
                        0 <= v < s.spec_n() && #[trigger] pano[v] is Correct {
                        &&& r@.len() == sched.len() + 1
                        &&& r@.subrange(0, sched.len() as int) =~= sched
                        &&& spec_is_unit_effect(
                            r@[sched.len() as int],
                            old(self).spec_new_unit(s, pano, t, None, instance_id),
                        )
                    } else {
                        r@ =~= sched
                    }
                })
                &&& (old(self).spec_earliest_unit_time(s) <= t && !(t == rid && s.spec_leader(
                    rid,
                ) == old(self).vidx.0 as int) && t != sat_add(rid, wo) ==> r@ =~= sched)
            },
            // An honest own unit is never cast before its earliest allowed
            // time.
            forall|i: int|
                0 <= i < r@.len() ==> match #[trigger] r@[i] {
                    Effect::NewVertex(vv) => match vv.0 {
                        Vertex::Unit(swu) => swu@.unit.timestamp >= old(
                            self,
                        ).spec_earliest_unit_time(s),
                        _ => true,
                    },
                    _ => true,
                },
    {
        if self.is_faulty(s) {
            return Vec::new();
        }
        let mut effects = self.schedule_timer(timestamp, s);
        let ghost sched = effects@;
        let earliest = self.earliest_unit_time(s);
        if earliest.millis > timestamp.millis {
            return effects;
        }
        let re = self.round_exp(s, timestamp);
        let rid = round_id(timestamp, re);
        let rlen = round_len(re);
        let wo = witness_offset_of(rlen);
        if timestamp.millis == rid.millis && s.leader(rid).0 == self.vidx.0 {
            match self.request_new_block(s, instance_id, timestamp) {
                Some(eff) => {
                    effects.push(eff);
                    proof {
                        assert(effects@.subrange(0, sched.len() as int) =~= sched);
                    }
                },
                None => {},
            }
        } else if timestamp.millis == rid.saturating_plus(wo).millis {
            proof {
                s.lemma_global_pan_cites();
            }
            let citable = s.citable_panorama();
            let panorama = s.panorama_cutoff(&citable, timestamp);
            proof {
                assert(panorama@ =~= self.spec_citable_cutoff(s, timestamp.millis));
            }
            if panorama.has_correct() {
                let witness = self.new_unit(panorama, timestamp, None, s, instance_id);
                proof {
                    assert(witness@.unit.timestamp == timestamp.millis);
                }
                effects.push(Effect::NewVertex(ValidVertex(Vertex::Unit(witness))));
                proof {
                    assert(effects@.subrange(0, sched.len() as int) =~= sched);
                }
            } else {
                proof {
                    assert forall|v: int|
                        0 <= v < s.spec_n() implies !(#[trigger] self.spec_citable_cutoff(
                        s,
                        timestamp.millis,
                    )[v] is Correct) by {
                        assert(panorama@[v] == self.spec_citable_cutoff(
                            s,
                            timestamp.millis,
                        )[v]);
                    }
                }
            }
        }
        effects
    }
}

} // verus!
