//! The protocol state: an append-only DAG of accepted units keyed by content
//! hash, with per-validator panoramas, equivocation evidence and endorsement
//! tallies.

use vstd::prelude::*;

use crate::codec::{spec_unit_hash, SignedUnitModel, UnitModel};
use crate::crypto::{spec_mix64, spec_sign, PublicKey};
use crate::evidence::{spec_evidence_valid, Evidence};
use crate::panorama::{Observation, Panorama};
use crate::round::{round_id, spec_round_id, valid_round_exp};
use crate::unit::SignedWireUnit;
use crate::validators::{spec_weight_sum, ValidatorIndex, Validators};
use crate::Timestamp;

verus! {

/// The protocol parameters fixed for the lifetime of a state instance.
#[derive(Clone, Copy, PartialEq, Eq, Structural, Debug)]
pub struct Params {
    /// The seed for deterministic leader selection.
    pub seed: u64,
    /// The round exponent of newly joined validators.
    pub init_round_exp: u8,
    /// The instance id: the era-scoped identifier parameterizing leader
    /// selection and message domain separation.
    pub instance_id: u64,
    /// The externally set stop condition: a block whose height reaches one
    /// less than this is a terminal (switch) block.  `None` means the era
    /// never ends on height.
    pub end_height: Option<u64>,
}

impl Params {
    pub fn new(seed: u64, init_round_exp: u8, instance_id: u64, end_height: Option<u64>) -> (r:
        Params)
        ensures
            r == (Params { seed, init_round_exp, instance_id, end_height }),
    {
        Params { seed, init_round_exp, instance_id, end_height }
    }

    /// The round exponent of newly joined validators.
    pub fn init_round_exp(&self) -> (r: u8)
        ensures
            r == self.init_round_exp,
    {
        self.init_round_exp
    }
}

/// The block data carried by a proposal unit: its parent in the block tree
/// and its height (0 for a child of the virtual genesis).
#[derive(Clone, Copy, PartialEq, Eq, Structural, Debug)]
pub struct BlockInfo {
    pub parent: Option<u64>,
    pub height: u64,
}

/// One accepted unit, as stored in the DAG arena.
#[derive(Clone, Debug)]
pub struct UnitRecord {
    /// The signed unit as received.
    pub swu: SignedWireUnit,
    /// The unit's canonical content hash.
    pub hash: u64,
    /// The hash of the block this unit votes for: its own hash for a
    /// proposal, else the fork choice of its panorama.  `None` when no block
    /// is visible.
    pub vote: Option<u64>,
    /// Present exactly when the unit carries a value: its place in the block
    /// tree.
    pub block: Option<BlockInfo>,
}

/// The protocol state.
pub struct State {
    /// The era's validator set; immutable.
    pub validators: Validators,
    /// The protocol parameters; immutable.
    pub params: Params,
    /// The DAG arena, in insertion order.  Every unit cites only earlier
    /// units.
    pub units: Vec<UnitRecord>,
    /// The globally-known latest observation of each validator.
    pub pan: Panorama,
    /// Evidence of equivocation, one slot per validator.
    pub faults: Vec<Option<Evidence>>,
    /// One row of flags per accepted unit: which validators endorsed it.
    pub endorsements: Vec<Vec<bool>>,
}

// ---------------------------------------------------------------------------
// Finding units by hash.
// ---------------------------------------------------------------------------
/// The first index at or after `i` whose record has hash `h`.
pub open spec fn spec_find_from(s: Seq<UnitRecord>, h: u64, i: int) -> Option<int>
    decreases s.len() - i,
{
    if i < 0 || i >= s.len() {
        None
    } else if s[i].hash == h {
        Some(i)
    } else {
        spec_find_from(s, h, i + 1)
    }
}

/// The index of the unit with hash `h`, if it is in the arena.
pub open spec fn spec_index_of(s: Seq<UnitRecord>, h: u64) -> Option<int> {
    spec_find_from(s, h, 0)
}

/// Whether a unit with hash `h` is in the arena.
pub open spec fn spec_has_unit(s: Seq<UnitRecord>, h: u64) -> bool {
    spec_index_of(s, h) is Some
}

/// What `spec_find_from` finds: the first occurrence, a real occurrence, or
/// none at all.
pub proof fn lemma_find_from(s: Seq<UnitRecord>, h: u64, i: int)
    requires
        0 <= i <= s.len(),
    ensures
        match spec_find_from(s, h, i) {
            Some(j) => i <= j < s.len() && s[j].hash == h && forall|k: int|
                i <= k < j ==> s[k].hash != h,
            None => forall|k: int| i <= k < s.len() ==> s[k].hash != h,
        },
    decreases s.len() - i,
{
    if i < s.len() && s[i].hash != h {
        lemma_find_from(s, h, i + 1);
    }
}

// ---------------------------------------------------------------------------
// Well-formedness.
// ---------------------------------------------------------------------------
impl State {
    /// The number of validators.
    pub open spec fn spec_n(&self) -> int {
        self.validators.list.len() as int
    }

    /// The public key of validator `v`.
    pub open spec fn spec_pk(&self, v: int) -> PublicKey
        recommends
            0 <= v < self.spec_n(),
    {
        self.validators.list[v].public_key
    }

    /// The wire content of the unit at arena index `i`.
    pub open spec fn spec_wire(&self, i: int) -> UnitModel
        recommends
            0 <= i < self.units.len(),
    {
        self.units[i].swu.wire_unit@
    }

    /// Whether validator `v` is marked faulty.
    pub open spec fn spec_is_faulty(&self, v: int) -> bool
        recommends
            0 <= v < self.spec_n(),
    {
        self.faults@[v] is Some
    }

    /// Structural validity of the record at index `i` with respect to the
    /// arena before it: creator in range, correctly hashed and signed, every
    /// citation resolved by an earlier unit of the right creator and an
    /// earlier or equal timestamp, the sequence number one more than the
    /// predecessor's, and a value only on a correctly shaped proposal.
    pub open spec fn spec_unit_wf(&self, i: int) -> bool
        recommends
            0 <= i < self.units.len(),
    {
        let u = self.units[i];
        let w = u.swu.wire_unit@;
        &&& 0 <= w.creator < self.spec_n()
        &&& w.panorama.len() == self.spec_n()
        &&& valid_round_exp(w.round_exp)
        &&& w.instance_id == self.params.instance_id
        &&& u.hash == spec_unit_hash(w)
        &&& u.swu.signature.sig == spec_sign(self.spec_pk(w.creator as int).key, u.hash)
        &&& forall|v: int|
            0 <= v < self.spec_n() ==> match #[trigger] w.panorama[v] {
                Observation::Correct(h) => {
                    let j = spec_index_of(self.units@, h);
                    &&& j is Some
                    &&& j.unwrap() < i
                    &&& self.spec_wire(j.unwrap()).creator == v
                    &&& self.spec_wire(j.unwrap()).timestamp <= w.timestamp
                },
                Observation::Faulty => self.spec_is_faulty(v),
                Observation::Null => true,
            }
        &&& match w.panorama[w.creator as int] {
            Observation::Null => w.seq_number == 0,
            Observation::Correct(h) => {
                let j = spec_index_of(self.units@, h);
                j is Some && w.seq_number == self.spec_wire(j.unwrap()).seq_number + 1
            },
            Observation::Faulty => false,
        }
        &&& (w.value is Some <==> u.block is Some)
        &&& match u.block {
            Some(bi) => match bi.parent {
                Some(p) => {
                    let j = spec_index_of(self.units@, p);
                    &&& j is Some
                    &&& j.unwrap() < i
                    &&& self.units@[j.unwrap()].block is Some
                    &&& bi.height == self.units@[j.unwrap()].block.unwrap().height + 1
                },
                None => bi.height == 0,
            },
            None => true,
        }
        &&& match u.vote {
            Some(b) => {
                let j = spec_index_of(self.units@, b);
                j is Some && j.unwrap() <= i && self.units@[j.unwrap()].block is Some
            },
            None => true,
        }
        &&& (w.value is Some ==> self.spec_is_proposal_shaped(i))
    }

    /// The shape of a proposal: its timestamp is exactly its round id, its
    /// creator leads that round, and it is the creator's first unit of the
    /// round.
    pub open spec fn spec_is_proposal_shaped(&self, i: int) -> bool
        recommends
            0 <= i < self.units.len(),
    {
        let w = self.spec_wire(i);
        &&& w.timestamp == spec_round_id(w.timestamp, w.round_exp)
        &&& self.spec_leader(w.timestamp) == w.creator
        &&& match w.panorama[w.creator as int] {
            Observation::Correct(h) => {
                let j = spec_index_of(self.units@, h);
                j is Some && self.spec_wire(j.unwrap()).timestamp < w.timestamp
            },
            _ => true,
        }
    }

    /// The constraints on the globally-known panorama slot of validator `v`:
    /// `Null` while no unit by `v` is known, the maximal-sequence unit by `v`
    /// while `v` is correct, `Faulty` exactly while evidence is stored.
    pub open spec fn spec_pan_slot_wf(&self, v: int) -> bool
        recommends
            0 <= v < self.spec_n(),
    {
        match self.pan@[v] {
            Observation::Null => {
                &&& !self.spec_is_faulty(v)
                &&& forall|i: int|
                    0 <= i < self.units.len() ==> (#[trigger] self.spec_wire(i)).creator != v
            },
            Observation::Correct(h) => {
                let j = spec_index_of(self.units@, h);
                &&& !self.spec_is_faulty(v)
                &&& j is Some
                &&& self.spec_wire(j.unwrap()).creator == v
                &&& forall|i: int|
                    0 <= i < self.units.len() && (#[trigger] self.spec_wire(i)).creator == v
                        ==> self.spec_wire(i).seq_number <= self.spec_wire(
                        j.unwrap(),
                    ).seq_number
            },
            Observation::Faulty => self.spec_is_faulty(v),
        }
    }

    /// Full well-formedness of the state: every constructor establishes it
    /// and every mutator preserves it.
    pub open spec fn wf(&self) -> bool {
        &&& self.validators.wf()
        &&& valid_round_exp(self.params.init_round_exp)
        &&& self.pan@.len() == self.spec_n()
        &&& self.faults@.len() == self.spec_n()
        &&& self.endorsements@.len() == self.units@.len()
        &&& forall|i: int|
            0 <= i < self.units.len() ==> (#[trigger] self.endorsements@[i])@.len()
                == self.spec_n()
        &&& forall|i: int| 0 <= i < self.units.len() ==> #[trigger] self.spec_unit_wf(i)
        &&& forall|i: int, j: int|
            0 <= i < j < self.units.len() ==> (#[trigger] self.units@[i]).hash != (
            #[trigger] self.units@[j]).hash
        &&& forall|i: int, j: int|
            0 <= i < self.units.len() && 0 <= j < self.units.len() && i != j && (
            #[trigger] self.spec_wire(i)).creator == (#[trigger] self.spec_wire(j)).creator
                ==> self.spec_wire(i).seq_number != self.spec_wire(j).seq_number
        &&& forall|v: int| 0 <= v < self.spec_n() ==> #[trigger] self.spec_pan_slot_wf(v)
        &&& forall|v: int|
            0 <= v < self.spec_n() ==> match #[trigger] self.faults@[v] {
                Some(ev) => spec_evidence_valid(ev@, self.spec_pk(v)) && ev@.unit1.unit.creator
                    == v && ev@.unit1.unit.instance_id == self.params.instance_id,
                None => true,
            }
    }

    // -----------------------------------------------------------------------
    // Construction and basic accessors.
    // -----------------------------------------------------------------------
    /// Creates an empty protocol state over the given validator set.
    pub fn new(validators: Validators, params: Params) -> (r: State)
        requires
            validators.wf(),
            valid_round_exp(params.init_round_exp),
        ensures
            r.wf(),
            r.validators == validators,
            r.params == params,
            r.units@.len() == 0,
            forall|v: int| 0 <= v < r.spec_n() ==> r.pan@[v] == Observation::Null,
            forall|v: int| 0 <= v < r.spec_n() ==> !r.spec_is_faulty(v),
    {
        let n = validators.len();
        let pan = Panorama::all_null(n);
        let mut faults: Vec<Option<Evidence>> = Vec::with_capacity(n);
        let mut i: usize = 0;
        while i < n
            invariant
                0 <= i <= n,
                faults@.len() == i,
                forall|j: int| 0 <= j < i ==> faults@[j] is None,
            decreases n - i,
        {
            faults.push(None);
            i = i + 1;
        }
        State { validators, params, units: Vec::new(), pan, faults, endorsements: Vec::new() }
    }

    /// The era's protocol parameters.
    pub fn params(&self) -> (r: &Params)
        ensures
            r == self.params,
    {
        &self.params
    }

    /// The globally-known latest observation of each validator.
    pub fn panorama(&self) -> (r: &Panorama)
        ensures
            r == self.pan,
    {
        &self.pan
    }

    /// The panorama this node may cite.  Faulty validators are cited as
    /// `Faulty`, never through their units, so no own equivocation can be
    /// cited.
    pub fn citable_panorama(&self) -> (r: Panorama)
        ensures
            r@ == self.pan@,
    {
        self.pan.duplicate()
    }

    /// Whether validator `v` is known to have equivocated.
    pub fn is_faulty(&self, v: ValidatorIndex) -> (r: bool)
        requires
            self.wf(),
            v.0 < self.spec_n(),
        ensures
            r == self.spec_is_faulty(v.0 as int),
    {
        self.faults[v.0 as usize].is_some()
    }

    /// The stored evidence against validator `v`, if any.
    pub fn opt_evidence(&self, v: ValidatorIndex) -> (r: Option<&Evidence>)
        requires
            self.wf(),
            v.0 < self.spec_n(),
        ensures
            match r {
                Some(ev) => self.faults@[v.0 as int] == Some(*ev),
                None => self.faults@[v.0 as int] is None,
            },
    {
        self.faults[v.0 as usize].as_ref()
    }

    /// The arena index of the unit with hash `h`, if present.
    pub fn find_unit(&self, h: u64) -> (r: Option<usize>)
        ensures
            match r {
                Some(i) => spec_index_of(self.units@, h) == Some(i as int),
                None => spec_index_of(self.units@, h) is None,
            },
    {
        let n = self.units.len();
        let mut i: usize = 0;
        while i < n
            invariant
                0 <= i <= n,
                n == self.units@.len(),
                spec_find_from(self.units@, h, 0) == spec_find_from(self.units@, h, i as int),
            decreases n - i,
        {
            if self.units[i].hash == h {
                return Some(i);
            }
            i = i + 1;
        }
        None
    }

    /// Whether the unit with hash `h` has been accepted.
    pub fn has_unit(&self, h: u64) -> (r: bool)
        ensures
            r == spec_has_unit(self.units@, h),
    {
        self.find_unit(h).is_some()
    }

    // -----------------------------------------------------------------------
    // Leader selection.
    // -----------------------------------------------------------------------
    /// The pseudo-random weight unit that decides the leader of the round
    /// starting at `r_id`: validators own consecutive ranges of weight
    /// units in index order, counted from the top.
    pub open spec fn spec_leader_slot(&self, r_id: u64) -> int {
        let total = self.validators.spec_total_weight();
        total - 1 - (spec_mix64(self.params.seed.wrapping_add(r_id)) as int % total)
    }

    /// The first validator whose cumulative weight range covers `slot`,
    /// scanning from index `i`.
    pub open spec fn spec_pick_by_weight(&self, slot: int, i: int) -> int
        decreases self.spec_n() - i,
    {
        if i < 0 || i >= self.spec_n() - 1 {
            self.spec_n() - 1
        } else if slot < spec_weight_sum(self.validators.list@, i + 1) {
            i
        } else {
            self.spec_pick_by_weight(slot, i + 1)
        }
    }

    /// The leader of the round starting at `r_id`: deterministic,
    /// pseudo-random, weighted by validator weight.
    pub open spec fn spec_leader(&self, r_id: u64) -> int {
        self.spec_pick_by_weight(self.spec_leader_slot(r_id), 0)
    }

    /// Computes the leader of the round starting at `r_id`.  Identical
    /// inputs yield an identical leader on every node.
    pub fn leader(&self, r_id: Timestamp) -> (r: ValidatorIndex)
        requires
            self.wf(),
        ensures
            r.0 == self.spec_leader(r_id.millis),
            r.0 < self.spec_n(),
    {
        let total = self.validators.total_weight();
        let mixed = crate::crypto::mix64(self.params.seed.wrapping_add(r_id.millis));
        let slot = total - 1 - (mixed % total);
        let n = self.validators.len();
        let mut i: usize = 0;
        let mut acc: u64 = 0;
        while i < n - 1
            invariant
                self.wf(),
                0 <= i <= n - 1,
                n == self.spec_n(),
                total == self.validators.spec_total_weight(),
                slot == self.spec_leader_slot(r_id.millis),
                0 <= slot < total,
                acc == spec_weight_sum(self.validators.list@, i as int),
                slot >= acc,
                self.spec_leader(r_id.millis) == self.spec_pick_by_weight(
                    slot as int,
                    i as int,
                ),
            decreases n - i,
        {
            proof {
                self.validators.lemma_weight_sum_monotone(i + 1 as int, n as int);
            }
            let next_acc = acc + self.validators.list[i].weight;
            if slot < next_acc {
                return ValidatorIndex(i as u32);
            }
            acc = next_acc;
            i = i + 1;
        }
        ValidatorIndex((n - 1) as u32)
    }
}

// ---------------------------------------------------------------------------
// Panorama algebra.
// ---------------------------------------------------------------------------
/// A panorama whose citations all resolve in state `s`: every `Correct` slot
/// names an accepted unit by the right creator, and every `Faulty` slot is
/// backed by stored evidence.
pub open spec fn spec_pan_cites(s: &State, p: Seq<Observation>) -> bool {
    &&& p.len() == s.spec_n()
    &&& forall|v: int|
        0 <= v < s.spec_n() ==> match #[trigger] p[v] {
            Observation::Correct(h) => {
                let j = spec_index_of(s.units@, h);
                j is Some && s.spec_wire(j.unwrap()).creator == v
            },
            Observation::Faulty => s.spec_is_faulty(v),
            Observation::Null => true,
        }
}

impl State {
    /// The record of the unit with hash `h`; the unit must be accepted.
    pub fn unit(&self, h: u64) -> (r: &UnitRecord)
        requires
            spec_has_unit(self.units@, h),
        ensures
            *r == self.units@[spec_index_of(self.units@, h).unwrap()],
    {
        proof {
            lemma_find_from(self.units@, h, 0);
        }
        let i = self.find_unit(h).unwrap();
        &self.units[i]
    }

    /// A unit's sequence number never exceeds its arena index.
    pub proof fn lemma_seq_le_index(&self, i: int)
        requires
            self.wf(),
            0 <= i < self.units.len(),
        ensures
            self.spec_wire(i).seq_number <= i,
        decreases i,
    {
        let w = self.spec_wire(i);
        assert(self.spec_unit_wf(i));
        match w.panorama[w.creator as int] {
            Observation::Null => {},
            Observation::Correct(h) => {
                lemma_find_from(self.units@, h, 0);
                let j = spec_index_of(self.units@, h);
                self.lemma_seq_le_index(j.unwrap());
            },
            Observation::Faulty => {},
        }
    }

    /// The globally-known panorama cites only accepted units.
    pub proof fn lemma_global_pan_cites(&self)
        requires
            self.wf(),
        ensures
            spec_pan_cites(self, self.pan@),
    {
        assert forall|v: int| 0 <= v < self.spec_n() implies match #[trigger] self.pan@[v] {
            Observation::Correct(h) => {
                let j = spec_index_of(self.units@, h);
                j is Some && self.spec_wire(j.unwrap()).creator == v
            },
            Observation::Faulty => self.spec_is_faulty(v),
            Observation::Null => true,
        } by {
            assert(self.spec_pan_slot_wf(v));
        }
    }

    /// The next sequence number of validator `v` under panorama `p`: zero if
    /// the panorama cites no unit by `v`, else one more than the cited
    /// unit's.
    pub open spec fn spec_next_seq(&self, p: Seq<Observation>, v: int) -> int {
        match p[v] {
            Observation::Correct(h) => {
                let j = spec_index_of(self.units@, h);
                if j is Some {
                    self.spec_wire(j.unwrap()).seq_number + 1
                } else {
                    0
                }
            },
            _ => 0,
        }
    }

    /// Computes the sequence number a new unit by `v` citing `p` must carry.
    pub fn next_seq_num(&self, p: &Panorama, v: ValidatorIndex) -> (r: u64)
        requires
            self.wf(),
            spec_pan_cites(self, p@),
            v.0 < self.spec_n(),
        ensures
            r == self.spec_next_seq(p@, v.0 as int),
    {
        match p.get(v) {
            Observation::Correct(h) => {
                let arena_len = self.units.len();
                proof {
                    lemma_find_from(self.units@, h, 0);
                    self.lemma_seq_le_index(spec_index_of(self.units@, h).unwrap());
                }
                let u = self.unit(h);
                u.swu.wire_unit.seq_number + 1
            },
            _ => 0,
        }
    }

    // -----------------------------------------------------------------------
    // The cutoff: restricting a panorama to units at or before a time.
    // -----------------------------------------------------------------------
    /// The latest ancestor (through own-predecessor links) of the unit at
    /// index `i` whose timestamp is at most `t`, as an observation.
    pub open spec fn spec_cutoff_obs(&self, i: int, t: u64) -> Observation
        decreases i,
    {
        if !(0 <= i < self.units.len()) {
            Observation::Null
        } else {
            let w = self.spec_wire(i);
            if w.timestamp <= t {
                Observation::Correct(self.units@[i].hash)
            } else {
                match w.panorama[w.creator as int] {
                    Observation::Correct(h) => {
                        let j = spec_index_of(self.units@, h);
                        if j is Some && 0 <= j.unwrap() < i {
                            self.spec_cutoff_obs(j.unwrap(), t)
                        } else {
                            Observation::Null
                        }
                    },
                    _ => Observation::Null,
                }
            }
        }
    }

    /// One slot of the cutoff of a panorama at time `t`.
    pub open spec fn spec_cutoff_slot(&self, o: Observation, t: u64) -> Observation {
        match o {
            Observation::Correct(h) => {
                let j = spec_index_of(self.units@, h);
                if j is Some {
                    self.spec_cutoff_obs(j.unwrap(), t)
                } else {
                    Observation::Null
                }
            },
            x => x,
        }
    }

    /// What the cutoff observation cites: a unit by the same creator with a
    /// timestamp at most `t`, or nothing.
    pub proof fn lemma_cutoff_obs_cites(&self, i: int, t: u64)
        requires
            self.wf(),
            0 <= i < self.units.len(),
        ensures
            match self.spec_cutoff_obs(i, t) {
                Observation::Correct(h) => {
                    let j = spec_index_of(self.units@, h);
                    &&& j is Some
                    &&& j.unwrap() <= i
                    &&& self.spec_wire(j.unwrap()).creator == self.spec_wire(i).creator
                    &&& self.spec_wire(j.unwrap()).timestamp <= t
                },
                Observation::Null => true,
                Observation::Faulty => false,
            },
        decreases i,
    {
        let w = self.spec_wire(i);
        assert(self.spec_unit_wf(i));
        if w.timestamp <= t {
            lemma_find_from(self.units@, self.units@[i].hash, 0);
            let j = spec_index_of(self.units@, self.units@[i].hash);
            assert(j is Some);
            if j.unwrap() != i {
                assert(self.units@[j.unwrap()].hash == self.units@[i].hash);
                assert(false);
            }
        } else {
            match w.panorama[w.creator as int] {
                Observation::Correct(h) => {
                    lemma_find_from(self.units@, h, 0);
                    let j = spec_index_of(self.units@, h);
                    if j is Some && 0 <= j.unwrap() < i {
                        self.lemma_cutoff_obs_cites(j.unwrap(), t);
                    }
                },
                _ => {},
            }
        }
    }

    /// Computes the cutoff observation for the unit at index `i`.
    fn cutoff_obs(&self, i: usize, t: Timestamp) -> (r: Observation)
        requires
            self.wf(),
            i < self.units.len(),
        ensures
            r == self.spec_cutoff_obs(i as int, t.millis),
        decreases i,
    {
        let u = &self.units[i];
        if u.swu.wire_unit.timestamp.millis <= t.millis {
            Observation::Correct(u.hash)
        } else {
            proof {
                assert(self.spec_unit_wf(i as int));
            }
            match u.swu.wire_unit.panorama.get(u.swu.wire_unit.creator) {
                Observation::Correct(h) => {
                    proof {
                        lemma_find_from(self.units@, h, 0);
                    }
                    match self.find_unit(h) {
                        Some(j) => {
                            if j < i {
                                self.cutoff_obs(j, t)
                            } else {
                                Observation::Null
                            }
                        },
                        None => Observation::Null,
                    }
                },
                _ => Observation::Null,
            }
        }
    }

    /// Replaces each `Correct` entry of `p` with the latest ancestor of the
    /// cited unit whose timestamp is at most `t`; the entry may become
    /// `Null`.
    pub fn panorama_cutoff(&self, p: &Panorama, t: Timestamp) -> (r: Panorama)
        requires
            self.wf(),
            spec_pan_cites(self, p@),
        ensures
            r@.len() == p@.len(),
            forall|v: int|
                0 <= v < p@.len() ==> r@[v] == self.spec_cutoff_slot(p@[v], t.millis),
            spec_pan_cites(self, r@),
    {
        let n = p.len();
        let mut observations: Vec<Observation> = Vec::with_capacity(n);
        let mut v: usize = 0;
        while v < n
            invariant
                self.wf(),
                spec_pan_cites(self, p@),
                0 <= v <= n,
                n == p@.len(),
                observations@.len() == v,
                forall|k: int|
                    0 <= k < v ==> observations@[k] == self.spec_cutoff_slot(p@[k], t.millis),
            decreases n - v,
        {
            let obs = match p.get(ValidatorIndex(v as u32)) {
                Observation::Correct(h) => {
                    proof {
                        lemma_find_from(self.units@, h, 0);
                    }
                    match self.find_unit(h) {
                        Some(j) => self.cutoff_obs(j, t),
                        None => Observation::Null,
                    }
                },
                x => x,
            };
            observations.push(obs);
            v = v + 1;
        }
        let r = Panorama { observations };
        proof {
            assert forall|k: int| 0 <= k < n implies match #[trigger] r@[k] {
                Observation::Correct(h) => {
                    let j = spec_index_of(self.units@, h);
                    j is Some && self.spec_wire(j.unwrap()).creator == k
                },
                Observation::Faulty => self.spec_is_faulty(k),
                Observation::Null => true,
            } by {
                match p@[k] {
                    Observation::Correct(h) => {
                        let j = spec_index_of(self.units@, h);
                        lemma_find_from(self.units@, h, 0);
                        self.lemma_cutoff_obs_cites(j.unwrap(), t.millis);
                    },
                    _ => {},
                }
            }
        }
        r
    }

    // -----------------------------------------------------------------------
    // Seeing units: the swimlane relation.
    // -----------------------------------------------------------------------
    /// Whether the unit with hash `h` lies on the own-predecessor chain of
    /// the unit at index `i` (that unit included).
    pub open spec fn spec_swimlane_contains(&self, i: int, h: u64) -> bool
        decreases i,
    {
        if !(0 <= i < self.units.len()) {
            false
        } else if self.units@[i].hash == h {
            true
        } else {
            let w = self.spec_wire(i);
            match w.panorama[w.creator as int] {
                Observation::Correct(p) => {
                    let j = spec_index_of(self.units@, p);
                    if j is Some && 0 <= j.unwrap() < i {
                        self.spec_swimlane_contains(j.unwrap(), h)
                    } else {
                        false
                    }
                },
                _ => false,
            }
        }
    }

    /// Whether panorama `p` sees the accepted unit with hash `h` without
    /// crossing a faulty observation of `h`'s creator: the observation of
    /// that creator is `Correct` and its cited unit descends from `h`.
    pub open spec fn spec_sees_correct(&self, p: Seq<Observation>, h: u64) -> bool {
        let j = spec_index_of(self.units@, h);
        &&& j is Some
        &&& {
            let c = self.spec_wire(j.unwrap()).creator as int;
            match p[c] {
                Observation::Correct(tip) => {
                    let tj = spec_index_of(self.units@, tip);
                    tj is Some && self.spec_swimlane_contains(tj.unwrap(), h)
                },
                _ => false,
            }
        }
    }

    /// Walks the own-predecessor chain from index `i` looking for `h`.
    fn swimlane_contains(&self, i: usize, h: u64) -> (r: bool)
        requires
            self.wf(),
            i < self.units.len(),
        ensures
            r == self.spec_swimlane_contains(i as int, h),
        decreases i,
    {
        if self.units[i].hash == h {
            return true;
        }
        proof {
            assert(self.spec_unit_wf(i as int));
        }
        let u = &self.units[i];
        match u.swu.wire_unit.panorama.get(u.swu.wire_unit.creator) {
            Observation::Correct(p) => {
                proof {
                    lemma_find_from(self.units@, p, 0);
                }
                match self.find_unit(p) {
                    Some(j) => {
                        if j < i {
                            self.swimlane_contains(j, h)
                        } else {
                            false
                        }
                    },
                    None => false,
                }
            },
            _ => false,
        }
    }

    /// Whether panorama `p` sees the unit with hash `h` as correct.
    pub fn sees_correct(&self, p: &Panorama, h: u64) -> (r: bool)
        requires
            self.wf(),
            p@.len() == self.spec_n(),
        ensures
            r == self.spec_sees_correct(p@, h),
    {
        proof {
            lemma_find_from(self.units@, h, 0);
        }
        let i = match self.find_unit(h) {
            Some(i) => i,
            None => {
                return false;
            },
        };
        proof {
            assert(self.spec_unit_wf(i as int));
        }
        let c = self.units[i].swu.wire_unit.creator;
        match p.get(c) {
            Observation::Correct(tip) => {
                proof {
                    lemma_find_from(self.units@, tip, 0);
                }
                match self.find_unit(tip) {
                    Some(tj) => self.swimlane_contains(tj, h),
                    None => false,
                }
            },
            _ => false,
        }
    }
}

// ---------------------------------------------------------------------------
// Panorama join and the confirmation panorama.
// ---------------------------------------------------------------------------
impl State {
    /// The join of two observations of one validator: a fault mark wins,
    /// otherwise the unit with the higher sequence number.
    pub open spec fn spec_merge_obs(&self, a: Observation, b: Observation) -> Observation {
        match (a, b) {
            (Observation::Faulty, _) => Observation::Faulty,
            (_, Observation::Faulty) => Observation::Faulty,
            (Observation::Null, x) => x,
            (x, Observation::Null) => x,
            (Observation::Correct(h1), Observation::Correct(h2)) => {
                let j1 = spec_index_of(self.units@, h1);
                let j2 = spec_index_of(self.units@, h2);
                if j1 is Some && j2 is Some && self.spec_wire(j2.unwrap()).seq_number
                    > self.spec_wire(j1.unwrap()).seq_number {
                    b
                } else {
                    a
                }
            },
        }
    }

    /// Computes the join of two observations.
    fn merge_obs(&self, a: Observation, b: Observation) -> (r: Observation)
        requires
            self.wf(),
        ensures
            r == self.spec_merge_obs(a, b),
    {
        match (a, b) {
            (Observation::Faulty, _) => Observation::Faulty,
            (_, Observation::Faulty) => Observation::Faulty,
            (Observation::Null, x) => x,
            (x, Observation::Null) => x,
            (Observation::Correct(h1), Observation::Correct(h2)) => {
                proof {
                    lemma_find_from(self.units@, h1, 0);
                    lemma_find_from(self.units@, h2, 0);
                }
                match (self.find_unit(h1), self.find_unit(h2)) {
                    (Some(j1), Some(j2)) => {
                        if self.units[j2].swu.wire_unit.seq_number
                            > self.units[j1].swu.wire_unit.seq_number {
                            Observation::Correct(h2)
                        } else {
                            Observation::Correct(h1)
                        }
                    },
                    _ => Observation::Correct(h1),
                }
            },
        }
    }

    /// One slot of the confirmation panorama for proposal `prop_h` as seen
    /// by validator `own` whose latest own unit is `own_tip` (if any): the
    /// join of the proposal's panorama with the own tip's, overridden by the
    /// own tip for `own` itself and by the proposal for its creator, with
    /// every known fault marked.
    pub open spec fn spec_confirmation_slot(
        &self,
        own: int,
        prop_h: u64,
        v: int,
    ) -> Observation
        recommends
            0 <= v < self.spec_n(),
            spec_has_unit(self.units@, prop_h),
    {
        let pi = spec_index_of(self.units@, prop_h).unwrap();
        let pw = self.spec_wire(pi);
        let base = match self.pan@[own] {
            Observation::Correct(own_tip) => {
                let oj = spec_index_of(self.units@, own_tip);
                let merged = if oj is Some {
                    self.spec_merge_obs(
                        pw.panorama[v],
                        self.spec_wire(oj.unwrap()).panorama[v],
                    )
                } else {
                    pw.panorama[v]
                };
                if v == own {
                    Observation::Correct(own_tip)
                } else {
                    merged
                }
            },
            _ => pw.panorama[v],
        };
        let with_prop = if v == pw.creator as int {
            Observation::Correct(prop_h)
        } else {
            base
        };
        if self.spec_is_faulty(v) {
            Observation::Faulty
        } else {
            with_prop
        }
    }

    /// The minimal panorama proving that `own` saw the proposal `prop_h` and
    /// its own latest unit: what a confirmation unit cites.
    pub fn confirmation_panorama(&self, own: ValidatorIndex, prop_h: u64) -> (r: Panorama)
        requires
            self.wf(),
            own.0 < self.spec_n(),
            spec_has_unit(self.units@, prop_h),
        ensures
            r@.len() == self.spec_n(),
            forall|v: int|
                0 <= v < self.spec_n() ==> r@[v] == self.spec_confirmation_slot(
                    own.0 as int,
                    prop_h,
                    v,
                ),
    {
        proof {
            lemma_find_from(self.units@, prop_h, 0);
        }
        let pi = self.find_unit(prop_h).unwrap();
        proof {
            assert(self.spec_unit_wf(pi as int));
        }
        let prop_creator = self.units[pi].swu.wire_unit.creator;
        let own_tip = self.pan.get(own).correct();
        let own_tip_idx = match own_tip {
            Some(tip) => {
                proof {
                    assert(self.spec_pan_slot_wf(own.0 as int));
                    lemma_find_from(self.units@, tip, 0);
                }
                self.find_unit(tip)
            },
            None => None,
        };
        let n = self.validators.len();
        let mut observations: Vec<Observation> = Vec::with_capacity(n);
        let mut v: usize = 0;
        while v < n
            invariant
                self.wf(),
                own.0 < self.spec_n(),
                spec_has_unit(self.units@, prop_h),
                0 <= v <= n,
                n == self.spec_n(),
                pi as int == spec_index_of(self.units@, prop_h).unwrap(),
                pi < self.units.len(),
                prop_creator.0 == self.spec_wire(pi as int).creator,
                own_tip == (match self.pan@[own.0 as int] {
                    Observation::Correct(h) => Some(h),
                    _ => None::<u64>,
                }),
                match own_tip {
                    Some(tip) => own_tip_idx is Some && spec_index_of(self.units@, tip)
                        == Some(own_tip_idx.unwrap() as int) && own_tip_idx.unwrap()
                        < self.units.len(),
                    None => own_tip_idx is None,
                },
                observations@.len() == v,
                forall|k: int|
                    0 <= k < v ==> observations@[k] == self.spec_confirmation_slot(
                        own.0 as int,
                        prop_h,
                        k,
                    ),
            decreases n - v,
        {
            let vi = ValidatorIndex(v as u32);
            let base = match (own_tip, own_tip_idx) {
                (Some(tip), Some(oj)) => {
                    if v as u32 == own.0 {
                        Observation::Correct(tip)
                    } else {
                        proof {
                            assert(self.spec_unit_wf(pi as int));
                            assert(self.spec_unit_wf(oj as int));
                        }
                        self.merge_obs(
                            self.units[pi].swu.wire_unit.panorama.get(vi),
                            self.units[oj].swu.wire_unit.panorama.get(vi),
                        )
                    }
                },
                _ => {
                    proof {
                        assert(self.spec_unit_wf(pi as int));
                    }
                    self.units[pi].swu.wire_unit.panorama.get(vi)
                },
            };
            let with_prop = if v as u32 == prop_creator.0 {
                Observation::Correct(prop_h)
            } else {
                base
            };
            let obs = if self.faults[v].is_some() {
                Observation::Faulty
            } else {
                with_prop
            };
            observations.push(obs);
            v = v + 1;
        }
        Panorama { observations }
    }

    // -----------------------------------------------------------------------
    // New observations of a validator.
    // -----------------------------------------------------------------------
    /// Whether the unit at index `i` cites a unit by `v` that its own
    /// predecessor did not cite: a new observation of `v`.
    pub open spec fn spec_new_hash_obs(&self, i: int, v: int) -> bool
        recommends
            0 <= i < self.units.len(),
            0 <= v < self.spec_n(),
    {
        let w = self.spec_wire(i);
        match w.panorama[v] {
            Observation::Correct(latest) => {
                match w.panorama[w.creator as int] {
                    Observation::Correct(prev) => {
                        let pj = spec_index_of(self.units@, prev);
                        if pj is Some {
                            match self.spec_wire(pj.unwrap()).panorama[v] {
                                Observation::Correct(old) => latest != old,
                                _ => true,
                            }
                        } else {
                            true
                        }
                    },
                    _ => true,
                }
            },
            _ => false,
        }
    }

    /// Whether the unit with hash `h` newly observes a unit by `v`.
    pub fn new_hash_obs(&self, h: u64, v: ValidatorIndex) -> (r: bool)
        requires
            self.wf(),
            spec_has_unit(self.units@, h),
            v.0 < self.spec_n(),
        ensures
            r == self.spec_new_hash_obs(
                spec_index_of(self.units@, h).unwrap(),
                v.0 as int,
            ),
    {
        proof {
            lemma_find_from(self.units@, h, 0);
        }
        let i = self.find_unit(h).unwrap();
        proof {
            assert(self.spec_unit_wf(i as int));
        }
        let w = &self.units[i].swu.wire_unit;
        let latest = match w.panorama.get(v) {
            Observation::Correct(l) => l,
            _ => {
                return false;
            },
        };
        let prev = match w.panorama.get(w.creator) {
            Observation::Correct(p) => p,
            _ => {
                return true;
            },
        };
        proof {
            lemma_find_from(self.units@, prev, 0);
        }
        let pj = match self.find_unit(prev) {
            Some(pj) => pj,
            None => {
                return true;
            },
        };
        proof {
            assert(self.spec_unit_wf(pj as int));
        }
        match self.units[pj].swu.wire_unit.panorama.get(v) {
            Observation::Correct(old) => latest != old,
            _ => true,
        }
    }

    // -----------------------------------------------------------------------
    // Listing units by correct creators.
    // -----------------------------------------------------------------------
    /// The hashes of the first `i` arena units whose creators are currently
    /// correct, in insertion order.
    pub open spec fn spec_correct_hashes_prefix(&self, i: int) -> Seq<u64>
        decreases i,
    {
        if i <= 0 || i > self.units.len() {
            Seq::empty()
        } else {
            let rest = self.spec_correct_hashes_prefix(i - 1);
            if !self.spec_is_faulty(self.spec_wire(i - 1).creator as int) {
                rest + seq![self.units@[i - 1].hash]
            } else {
                rest
            }
        }
    }

    /// The hashes of all accepted units whose creators are currently
    /// correct, in insertion order.
    pub fn iter_correct_hashes(&self) -> (r: Vec<u64>)
        requires
            self.wf(),
        ensures
            r@ == self.spec_correct_hashes_prefix(self.units.len() as int),
    {
        let n = self.units.len();
        let mut out: Vec<u64> = Vec::new();
        let mut i: usize = 0;
        while i < n
            invariant
                self.wf(),
                0 <= i <= n,
                n == self.units.len(),
                out@ == self.spec_correct_hashes_prefix(i as int),
            decreases n - i,
        {
            proof {
                assert(self.spec_unit_wf(i as int));
            }
            let c = self.units[i].swu.wire_unit.creator;
            if !self.faults[c.0 as usize].is_some() {
                out.push(self.units[i].hash);
            }
            i = i + 1;
        }
        out
    }
}

// ---------------------------------------------------------------------------
// Endorsement tallies.
// ---------------------------------------------------------------------------
impl State {
    /// The endorsing weight of the unit at index `i`, summed over validators
    /// `0 .. v`.
    pub open spec fn spec_endorsement_weight(&self, i: int, v: int) -> int
        decreases v,
    {
        if v <= 0 || v > self.spec_n() || !(0 <= i < self.units.len()) {
            0
        } else {
            self.spec_endorsement_weight(i, v - 1) + if self.endorsements@[i]@[v - 1] {
                self.validators.list@[v - 1].weight as int
            } else {
                0
            }
        }
    }

    /// The endorsing weight never exceeds the corresponding weight sum.
    pub proof fn lemma_endorsement_weight_bound(&self, i: int, v: int)
        requires
            self.wf(),
            0 <= i < self.units.len(),
            0 <= v <= self.spec_n(),
        ensures
            0 <= self.spec_endorsement_weight(i, v) <= spec_weight_sum(
                self.validators.list@,
                v,
            ),
        decreases v,
    {
        if v > 0 {
            self.lemma_endorsement_weight_bound(i, v - 1);
        }
    }

    /// Whether the unit at index `i` is endorsed above the threshold: more
    /// than half of the total weight endorses it.
    pub open spec fn spec_is_endorsed(&self, i: int) -> bool {
        2 * self.spec_endorsement_weight(i, self.spec_n())
            > self.validators.spec_total_weight()
    }

    /// Computes the endorsing weight of the unit at index `i`.
    fn endorsement_weight(&self, i: usize) -> (r: u64)
        requires
            self.wf(),
            i < self.units.len(),
        ensures
            r == self.spec_endorsement_weight(i as int, self.spec_n()),
    {
        let n = self.validators.len();
        let mut acc: u64 = 0;
        let mut v: usize = 0;
        while v < n
            invariant
                self.wf(),
                i < self.units.len(),
                0 <= v <= n,
                n == self.spec_n(),
                acc == self.spec_endorsement_weight(i as int, v as int),
            decreases n - v,
        {
            proof {
                self.lemma_endorsement_weight_bound(i as int, v + 1 as int);
                self.validators.lemma_weight_sum_monotone(v + 1 as int, n as int);
            }
            if self.endorsements[i][v] {
                acc = acc + self.validators.list[v].weight;
            }
            v = v + 1;
        }
        acc
    }

    /// Whether the unit at index `i` is endorsed above the threshold.
    fn is_endorsed(&self, i: usize) -> (r: bool)
        requires
            self.wf(),
            i < self.units.len(),
        ensures
            r == self.spec_is_endorsed(i as int),
    {
        let w = self.endorsement_weight(i);
        let total = self.validators.total_weight();
        (w as u128) * 2 > total as u128
    }

    /// The hashes among the first `i` arena units that are endorsed above
    /// the threshold and visible in panorama `p`.
    pub open spec fn spec_seen_endorsed_prefix(&self, p: Seq<Observation>, i: int) -> Seq<u64>
        decreases i,
    {
        if i <= 0 || i > self.units.len() {
            Seq::empty()
        } else {
            let rest = self.spec_seen_endorsed_prefix(p, i - 1);
            if self.spec_is_endorsed(i - 1) && self.spec_sees_correct(
                p,
                self.units@[i - 1].hash,
            ) {
                rest + seq![self.units@[i - 1].hash]
            } else {
                rest
            }
        }
    }

    /// The set of unit hashes that are endorsed above the threshold within
    /// the sub-DAG visible in panorama `p`, in insertion order.
    pub fn seen_endorsed(&self, p: &Panorama) -> (r: Vec<u64>)
        requires
            self.wf(),
            p@.len() == self.spec_n(),
        ensures
            r@ == self.spec_seen_endorsed_prefix(p@, self.units.len() as int),
    {
        let n = self.units.len();
        let mut out: Vec<u64> = Vec::new();
        let mut i: usize = 0;
        while i < n
            invariant
                self.wf(),
                p@.len() == self.spec_n(),
                0 <= i <= n,
                n == self.units.len(),
                out@ == self.spec_seen_endorsed_prefix(p@, i as int),
            decreases n - i,
        {
            if self.is_endorsed(i) {
                let h = self.units[i].hash;
                if self.sees_correct(p, h) {
                    out.push(h);
                }
            }
            i = i + 1;
        }
        out
    }

    /// Whether one signed endorsement is acceptable: a known, correct
    /// endorser, an accepted unit, and a valid signature over the
    /// endorsement's canonical hash.
    pub open spec fn spec_endorsement_valid(
        &self,
        se: crate::endorsement::SignedEndorsement,
    ) -> bool {
        &&& 0 <= se.endorsement.endorser.0 < self.spec_n()
        &&& !self.spec_is_faulty(se.endorsement.endorser.0 as int)
        &&& spec_has_unit(self.units@, se.endorsement.unit_hash)
        &&& se.signature.sig == spec_sign(
            self.spec_pk(se.endorsement.endorser.0 as int).key,
            crate::codec::spec_endorsement_hash(se.endorsement),
        )
    }

    /// Whether some endorsement in `es` validly marks unit `i` as endorsed
    /// by validator `v`.
    pub open spec fn spec_endorsement_applies(
        &self,
        es: Seq<crate::endorsement::SignedEndorsement>,
        i: int,
        v: int,
    ) -> bool {
        exists|k: int|
            0 <= k < es.len() && {
                let se = #[trigger] es[k];
                &&& self.spec_endorsement_valid(se)
                &&& spec_index_of(self.units@, se.endorsement.unit_hash) == Some(i)
                &&& se.endorsement.endorser.0 == v
            }
    }

    /// Tallies a batch of endorsements: marks each validly endorsed unit as
    /// endorsed by its endorser.  Duplicates and endorsements from faulty or
    /// unknown endorsers, or of unknown units, are silently dropped.
    pub fn add_endorsements(&mut self, e: &crate::endorsement::Endorsements)
        requires
            old(self).wf(),
        ensures
            final(self).wf(),
            final(self).validators == old(self).validators,
            final(self).params == old(self).params,
            final(self).pan == old(self).pan,
            final(self).faults == old(self).faults,
            final(self).units == old(self).units,
            final(self).endorsements@.len() == old(self).endorsements@.len(),
            forall|i: int|
                0 <= i < old(self).units@.len()
                    ==> (#[trigger] final(self).endorsements@[i])@.len()
                    == old(self).endorsements@[i]@.len(),
            forall|i: int, v: int|
                0 <= i < old(self).units@.len() && 0 <= v < old(self).spec_n()
                    ==> ((#[trigger] final(self).endorsements@[i]@[v])
                    <==> (old(self).endorsements@[i]@[v]
                    || old(self).spec_endorsement_applies(e@, i, v))),
    {
        let ghost orig = *self;
        let m = e.endorsements.len();
        let mut k: usize = 0;
        while k < m
            invariant
                self.wf(),
                m == e@.len(),
                0 <= k <= m,
                self.validators == orig.validators,
                self.params == orig.params,
                self.pan == orig.pan,
                self.faults == orig.faults,
                self.units == orig.units,
                self.endorsements@.len() == orig.endorsements@.len(),
                orig.wf(),
                forall|i: int|
                    0 <= i < orig.units@.len() ==> (#[trigger] self.endorsements@[i])@.len()
                        == orig.endorsements@[i]@.len(),
                forall|i: int, v: int|
                    0 <= i < orig.units@.len() && 0 <= v < orig.spec_n() ==> ((
                    #[trigger] self.endorsements@[i]@[v]) <==> (orig.endorsements@[i]@[v]
                        || orig.spec_endorsement_applies(e@.subrange(0, k as int), i, v))),
            decreases m - k,
        {
            let se = e.endorsements[k];
            let ghost pre = *self;
            if se.endorsement.endorser.0 < self.validators.len() as u32 {
                let endorser = se.endorsement.endorser;
                if !self.faults[endorser.0 as usize].is_some() {
                    proof {
                        lemma_find_from(self.units@, se.endorsement.unit_hash, 0);
                    }
                    if let Some(i) = self.find_unit(se.endorsement.unit_hash) {
                        let eh = crate::codec::hash_endorsement(&se.endorsement);
                        let pk = self.validators.get(endorser).public_key;
                        if pk.verify(eh, &se.signature) {
                            self.endorsements[i].set(endorser.0 as usize, true);
                            proof {
                                lemma_wf_same_core(pre, *self);
                            }
                        }
                    }
                }
            }
            proof {
                assert forall|i: int, v: int|
                    0 <= i < orig.units@.len() && 0 <= v < orig.spec_n() implies ((
                #[trigger] self.endorsements@[i]@[v]) <==> (orig.endorsements@[i]@[v]
                        || orig.spec_endorsement_applies(
                    e@.subrange(0, k + 1 as int),
                    i,
                    v,
                ))) by {
                    assert(e@.subrange(0, k + 1 as int)[k as int] == e@[k as int]);
                    assert forall|kk: int| 0 <= kk < k implies e@.subrange(0, k + 1 as int)[kk]
                        == e@.subrange(0, k as int)[kk] by {}
                    if self.endorsements@[i]@[v] {
                        if !pre.endorsements@[i]@[v] {
                            assert(orig.spec_endorsement_valid(e@[k as int]));
                            assert(spec_index_of(orig.units@, e@[k as int].endorsement.unit_hash)
                                == Some(i));
                            assert(orig.spec_endorsement_applies(
                                e@.subrange(0, k + 1 as int),
                                i,
                                v,
                            ));
                        } else if orig.endorsements@[i]@[v] {
                        } else {
                            let kk = choose|kk: int|
                                0 <= kk < k && {
                                    let sek = #[trigger] e@.subrange(0, k as int)[kk];
                                    &&& orig.spec_endorsement_valid(sek)
                                    &&& spec_index_of(orig.units@, sek.endorsement.unit_hash)
                                        == Some(i)
                                    &&& sek.endorsement.endorser.0 == v
                                };
                            assert(e@.subrange(0, k + 1 as int)[kk] == e@.subrange(
                                0,
                                k as int,
                            )[kk]);
                            assert(orig.spec_endorsement_applies(
                                e@.subrange(0, k + 1 as int),
                                i,
                                v,
                            ));
                        }
                    } else {
                        if orig.spec_endorsement_applies(e@.subrange(0, k + 1 as int), i, v) {
                            let kk = choose|kk: int|
                                0 <= kk < k + 1 && {
                                    let sek = #[trigger] e@.subrange(0, k + 1 as int)[kk];
                                    &&& orig.spec_endorsement_valid(sek)
                                    &&& spec_index_of(orig.units@, sek.endorsement.unit_hash)
                                        == Some(i)
                                    &&& sek.endorsement.endorser.0 == v
                                };
                            if kk < k {
                                assert(e@.subrange(0, k as int)[kk] == e@.subrange(
                                    0,
                                    k + 1 as int,
                                )[kk]);
                                assert(orig.spec_endorsement_applies(
                                    e@.subrange(0, k as int),
                                    i,
                                    v,
                                ));
                                assert(false);
                            } else {
                                lemma_find_from(
                                    orig.units@,
                                    e@[k as int].endorsement.unit_hash,
                                    0,
                                );
                                assert(false);
                            }
                        }
                    }
                }
            }
            k = k + 1;
        }
        proof {
            assert(e@.subrange(0, m as int) =~= e@);
        }
    }
}


/// Well-formedness depends only on the validator set, parameters, units,
/// panorama and faults: changing endorsement tallies (to rows of the right
/// length) preserves it.
pub proof fn lemma_wf_same_core(pre: State, post: State)
    requires
        pre.wf(),
        post.validators == pre.validators,
        post.params == pre.params,
        post.units == pre.units,
        post.pan == pre.pan,
        post.faults == pre.faults,
        post.endorsements@.len() == post.units@.len(),
        forall|i: int|
            0 <= i < post.units@.len() ==> (#[trigger] post.endorsements@[i])@.len()
                == post.spec_n(),
    ensures
        post.wf(),
{
    assert(post.spec_n() == pre.spec_n());
    assert forall|i: int| 0 <= i < post.units.len() implies #[trigger] post.spec_unit_wf(i) by {
        assert(pre.spec_unit_wf(i));
        let u = post.units[i];
        let w = u.swu.wire_unit@;
        assert forall|v: int|
            0 <= v < post.spec_n() implies match #[trigger] w.panorama[v] {
            Observation::Correct(h) => {
                let j = spec_index_of(post.units@, h);
                &&& j is Some
                &&& j.unwrap() < i
                &&& post.spec_wire(j.unwrap()).creator == v
                &&& post.spec_wire(j.unwrap()).timestamp <= w.timestamp
            },
            Observation::Faulty => post.spec_is_faulty(v),
            Observation::Null => true,
        } by {
            match w.panorama[v] {
                Observation::Correct(h) => {
                    assert(spec_index_of(post.units@, h) == spec_index_of(pre.units@, h));
                },
                _ => {},
            }
        }
        assert(post.spec_is_proposal_shaped(i) == pre.spec_is_proposal_shaped(i)) by {
            assert(post.spec_leader(post.spec_wire(i).timestamp) == pre.spec_leader(
                pre.spec_wire(i).timestamp,
            )) by {
                lemma_pick_by_weight_same(pre, post, post.spec_leader_slot(
                    post.spec_wire(i).timestamp,
                ), 0);
            }
        }
    }
    assert forall|v: int| 0 <= v < post.spec_n() implies #[trigger] post.spec_pan_slot_wf(
        v,
    ) by {
        assert(pre.spec_pan_slot_wf(v));
        assert forall|i: int| 0 <= i < post.units.len() implies #[trigger] post.spec_wire(i)
            == pre.spec_wire(i) by {}
        match post.pan@[v] {
            Observation::Null => {
                assert forall|i: int|
                    0 <= i < post.units.len() implies (#[trigger] post.spec_wire(i)).creator
                    != v by {
                    assert(pre.spec_wire(i).creator != v);
                }
            },
            Observation::Correct(h) => {
                assert(spec_index_of(post.units@, h) == spec_index_of(pre.units@, h));
                let j = spec_index_of(post.units@, h).unwrap();
                assert forall|i: int|
                    0 <= i < post.units.len() && (#[trigger] post.spec_wire(i)).creator
                    == v implies post.spec_wire(i).seq_number <= post.spec_wire(
                    j,
                ).seq_number by {
                    assert(pre.spec_wire(i).creator == v);
                }
            },
            Observation::Faulty => {},
        }
    }
    assert forall|v: int| 0 <= v < post.spec_n() implies match #[trigger] post.faults@[v] {
        Some(ev) => spec_evidence_valid(ev@, post.spec_pk(v)) && ev@.unit1.unit.creator == v
            && ev@.unit1.unit.instance_id == post.params.instance_id,
        None => true,
    } by {
        assert(post.faults@[v] == pre.faults@[v]);
        assert(post.spec_pk(v) == pre.spec_pk(v));
    }
    assert forall|i: int, j: int|
        0 <= i < j < post.units.len() implies (#[trigger] post.units@[i]).hash != (
    #[trigger] post.units@[j]).hash by {
        assert(pre.units@[i].hash != pre.units@[j].hash);
    }
    assert forall|i: int, j: int|
        0 <= i < post.units.len() && 0 <= j < post.units.len() && i != j && (
        #[trigger] post.spec_wire(i)).creator == (#[trigger] post.spec_wire(j)).creator implies post.spec_wire(
        i,
    ).seq_number != post.spec_wire(j).seq_number by {
        assert(post.spec_wire(i) == pre.spec_wire(i));
        assert(post.spec_wire(j) == pre.spec_wire(j));
    }
}

/// Weighted picking reads only the validator list.
pub proof fn lemma_pick_by_weight_same(pre: State, post: State, slot: int, i: int)
    requires
        post.validators == pre.validators,
    ensures
        post.spec_pick_by_weight(slot, i) == pre.spec_pick_by_weight(slot, i),
    decreases post.spec_n() - i,
{
    if !(i < 0 || i >= post.spec_n() - 1) && !(slot < spec_weight_sum(
        post.validators.list@,
        i + 1,
    )) {
        lemma_pick_by_weight_same(pre, post, slot, i + 1);
    }
}

// ---------------------------------------------------------------------------
// The block tree and fork choice.
// ---------------------------------------------------------------------------
impl State {
    /// The ancestor of the block at arena index `j` at height `target`,
    /// following parent links.
    pub open spec fn spec_block_ancestor_idx(&self, j: int, target: int) -> Option<u64>
        decreases j,
    {
        if !(0 <= j < self.units.len()) || !(self.units@[j].block is Some) {
            None
        } else {
            let bi = self.units@[j].block.unwrap();
            if bi.height == target {
                Some(self.units@[j].hash)
            } else if bi.height < target {
                None
            } else {
                match bi.parent {
                    Some(p) => {
                        let pj = spec_index_of(self.units@, p);
                        if pj is Some && 0 <= pj.unwrap() < j {
                            self.spec_block_ancestor_idx(pj.unwrap(), target)
                        } else {
                            None
                        }
                    },
                    None => None,
                }
            }
        }
    }

    /// Walks parent links from the block at index `j` down to height
    /// `target`.
    fn block_ancestor(&self, j: usize, target: u64) -> (r: Option<u64>)
        requires
            self.wf(),
            j < self.units.len(),
        ensures
            r == self.spec_block_ancestor_idx(j as int, target as int),
        decreases j,
    {
        let bi = match self.units[j].block {
            Some(bi) => bi,
            None => {
                return None;
            },
        };
        if bi.height == target {
            Some(self.units[j].hash)
        } else if bi.height < target {
            None
        } else {
            proof {
                assert(self.spec_unit_wf(j as int));
            }
            match bi.parent {
                Some(p) => {
                    proof {
                        lemma_find_from(self.units@, p, 0);
                    }
                    match self.find_unit(p) {
                        Some(pj) => {
                            if pj < j {
                                self.block_ancestor(pj, target)
                            } else {
                                None
                            }
                        },
                        None => None,
                    }
                },
                None => None,
            }
        }
    }

    /// Whether validator `v`'s observation in `p` votes for candidate block
    /// `c`: the cited unit's vote descends from `c`.
    pub open spec fn spec_supports(&self, p: Seq<Observation>, v: int, c: u64) -> bool {
        let cj = spec_index_of(self.units@, c);
        &&& cj is Some
        &&& self.units@[cj.unwrap()].block is Some
        &&& match p[v] {
            Observation::Correct(h) => {
                let j = spec_index_of(self.units@, h);
                &&& j is Some
                &&& match self.units@[j.unwrap()].vote {
                    Some(b) => {
                        let bj = spec_index_of(self.units@, b);
                        bj is Some && self.spec_block_ancestor_idx(
                            bj.unwrap(),
                            self.units@[cj.unwrap()].block.unwrap().height as int,
                        ) == Some(c)
                    },
                    None => false,
                }
            },
            _ => false,
        }
    }

    /// The weight of validators `0 .. v` whose observations in `p` vote for
    /// candidate `c`.
    pub open spec fn spec_support_weight(&self, p: Seq<Observation>, c: u64, v: int) -> int
        decreases v,
    {
        if v <= 0 || v > self.spec_n() {
            0
        } else {
            self.spec_support_weight(p, c, v - 1) + if self.spec_supports(p, v - 1, c) {
                self.validators.list@[v - 1].weight as int
            } else {
                0
            }
        }
    }

    /// The supporting weight never exceeds the corresponding weight sum.
    pub proof fn lemma_support_weight_bound(&self, p: Seq<Observation>, c: u64, v: int)
        requires
            self.wf(),
            0 <= v <= self.spec_n(),
        ensures
            0 <= self.spec_support_weight(p, c, v) <= spec_weight_sum(
                self.validators.list@,
                v,
            ),
        decreases v,
    {
        if v > 0 {
            self.lemma_support_weight_bound(p, c, v - 1);
        }
    }

    /// Computes the weight voting for candidate `c` under panorama `p`.
    fn support_weight(&self, p: &Panorama, c: u64) -> (r: u64)
        requires
            self.wf(),
            p@.len() == self.spec_n(),
        ensures
            r == self.spec_support_weight(p@, c, self.spec_n()),
    {
        let n = self.validators.len();
        let mut acc: u64 = 0;
        let mut v: usize = 0;
        while v < n
            invariant
                self.wf(),
                p@.len() == self.spec_n(),
                0 <= v <= n,
                n == self.spec_n(),
                acc == self.spec_support_weight(p@, c, v as int),
            decreases n - v,
        {
            proof {
                self.lemma_support_weight_bound(p@, c, v + 1 as int);
                self.validators.lemma_weight_sum_monotone(v + 1 as int, n as int);
            }
            if self.supports(p, ValidatorIndex(v as u32), c) {
                acc = acc + self.validators.list[v].weight;
            }
            v = v + 1;
        }
        acc
    }

    /// Whether validator `v`'s observation in `p` votes for candidate `c`.
    fn supports(&self, p: &Panorama, v: ValidatorIndex, c: u64) -> (r: bool)
        requires
            self.wf(),
            p@.len() == self.spec_n(),
            v.0 < self.spec_n(),
        ensures
            r == self.spec_supports(p@, v.0 as int, c),
    {
        proof {
            lemma_find_from(self.units@, c, 0);
        }
        let cj = match self.find_unit(c) {
            Some(cj) => cj,
            None => {
                return false;
            },
        };
        let cbi = match self.units[cj].block {
            Some(bi) => bi,
            None => {
                return false;
            },
        };
        let h = match p.get(v) {
            Observation::Correct(h) => h,
            _ => {
                return false;
            },
        };
        proof {
            lemma_find_from(self.units@, h, 0);
        }
        let j = match self.find_unit(h) {
            Some(j) => j,
            None => {
                return false;
            },
        };
        let b = match self.units[j].vote {
            Some(b) => b,
            None => {
                return false;
            },
        };
        proof {
            lemma_find_from(self.units@, b, 0);
        }
        let bj = match self.find_unit(b) {
            Some(bj) => bj,
            None => {
                return false;
            },
        };
        self.block_ancestor(bj, cbi.height) == Some(c)
    }

    /// Whether `c` is the best child block of `cur` under panorama `p`: a
    /// block whose parent is `cur`, with positive support, beating every
    /// other such block on support and, on ties, by the smaller hash.
    pub open spec fn spec_is_best_child(
        &self,
        p: Seq<Observation>,
        cur: Option<u64>,
        c: u64,
    ) -> bool {
        let cj = spec_index_of(self.units@, c);
        &&& cj is Some
        &&& self.units@[cj.unwrap()].block is Some
        &&& self.units@[cj.unwrap()].block.unwrap().parent == cur
        &&& self.spec_support_weight(p, c, self.spec_n()) > 0
        &&& forall|d: u64|
            #![trigger self.spec_support_weight(p, d, self.spec_n())]
            d != c && {
                let dj = spec_index_of(self.units@, d);
                dj is Some && self.units@[dj.unwrap()].block is Some
                    && self.units@[dj.unwrap()].block.unwrap().parent == cur
            } ==> (self.spec_support_weight(p, d, self.spec_n()) < self.spec_support_weight(
                p,
                c,
                self.spec_n(),
            ) || (self.spec_support_weight(p, d, self.spec_n()) == self.spec_support_weight(
                p,
                c,
                self.spec_n(),
            ) && c < d))
    }

    /// The best child of `cur` under `p`, if any child has support.
    pub open spec fn spec_best_child(&self, p: Seq<Observation>, cur: Option<u64>) -> Option<
        u64,
    > {
        if exists|c: u64| self.spec_is_best_child(p, cur, c) {
            Some(choose|c: u64| self.spec_is_best_child(p, cur, c))
        } else {
            None
        }
    }

    /// At most one block is the best child.
    pub proof fn lemma_best_child_unique(
        &self,
        p: Seq<Observation>,
        cur: Option<u64>,
        c1: u64,
        c2: u64,
    )
        requires
            self.spec_is_best_child(p, cur, c1),
            self.spec_is_best_child(p, cur, c2),
        ensures
            c1 == c2,
    {
        if c1 != c2 {
            assert(self.spec_support_weight(p, c1, self.spec_n()) <= self.spec_support_weight(
                p,
                c2,
                self.spec_n(),
            ));
        }
    }

    /// Finds the best child of `cur` under `p`.
    #[verifier::loop_isolation(false)]
    pub(crate) fn best_child(&self, p: &Panorama, cur: Option<u64>) -> (r: Option<u64>)
        requires
            self.wf(),
            p@.len() == self.spec_n(),
        ensures
            r == self.spec_best_child(p@, cur),
            match r {
                Some(b) => {
                    let j = spec_index_of(self.units@, b);
                    j is Some && self.units@[j.unwrap()].block is Some
                },
                None => true,
            },
    {
        let n = self.units.len();
        let mut best: Option<u64> = None;
        let mut best_weight: u64 = 0;
        let mut i: usize = 0;
        while i < n
            invariant
                0 <= i <= n,
                match best {
                    Some(b) => {
                        let bj = spec_index_of(self.units@, b);
                        &&& bj is Some
                        &&& bj.unwrap() < i
                        &&& self.units@[bj.unwrap()].block is Some
                        &&& self.units@[bj.unwrap()].block.unwrap().parent == cur
                        &&& best_weight == self.spec_support_weight(p@, b, self.spec_n())
                        &&& best_weight > 0
                        &&& forall|k: int|
                            0 <= k < i && (#[trigger] self.units@[k]).block is Some
                                && self.units@[k].block.unwrap().parent == cur
                                && self.units@[k].hash != b ==> (self.spec_support_weight(
                                p@,
                                self.units@[k].hash,
                                self.spec_n(),
                            ) < best_weight || (self.spec_support_weight(
                                p@,
                                self.units@[k].hash,
                                self.spec_n(),
                            ) == best_weight && b < self.units@[k].hash))
                    },
                    None => forall|k: int|
                        0 <= k < i && (#[trigger] self.units@[k]).block is Some
                            && self.units@[k].block.unwrap().parent == cur
                            ==> self.spec_support_weight(
                            p@,
                            self.units@[k].hash,
                            self.spec_n(),
                        ) == 0,
                },
            decreases n - i,
        {
            let is_child = match self.units[i].block {
                Some(bi) => {
                    match (bi.parent, cur) {
                        (Some(a), Some(b)) => a == b,
                        (None, None) => true,
                        _ => false,
                    }
                },
                None => false,
            };
            if is_child {
                let h = self.units[i].hash;
                let w = self.support_weight(p, h);
                proof {
                    lemma_find_from(self.units@, h, 0);
                    let hj = spec_index_of(self.units@, h).unwrap();
                    if hj != i as int {
                        assert(self.units@[hj].hash == self.units@[i as int].hash);
                        assert(false);
                    }
                }
                if w > 0 {
                    let take = match best {
                        Some(b) => w > best_weight || (w == best_weight && h < b),
                        None => true,
                    };
                    if take {
                        best = Some(h);
                        best_weight = w;
                    }
                }
            }
            i = i + 1;
        }
        proof {
            match best {
                Some(b) => {
                    assert(self.spec_is_best_child(p@, cur, b)) by {
                        assert forall|d: u64|
                            d != b && {
                                let dj = spec_index_of(self.units@, d);
                                dj is Some && self.units@[dj.unwrap()].block is Some
                                    && self.units@[dj.unwrap()].block.unwrap().parent == cur
                            } implies (#[trigger] self.spec_support_weight(p@, d, self.spec_n())
                            < best_weight || (self.spec_support_weight(p@, d, self.spec_n())
                            == best_weight && b < d)) by {
                            let dj = spec_index_of(self.units@, d).unwrap();
                            lemma_find_from(self.units@, d, 0);
                            assert(self.units@[dj].hash == d);
                        }
                    }
                    let cb = choose|c: u64| self.spec_is_best_child(p@, cur, c);
                    self.lemma_best_child_unique(p@, cur, cb, b);
                },
                None => {
                    if exists|c: u64| self.spec_is_best_child(p@, cur, c) {
                        let c = choose|c: u64| self.spec_is_best_child(p@, cur, c);
                        let cj = spec_index_of(self.units@, c).unwrap();
                        lemma_find_from(self.units@, c, 0);
                        assert(self.units@[cj].hash == c);
                        assert(self.spec_support_weight(p@, c, self.spec_n()) == 0);
                        assert(false);
                    }
                },
            }
        }
        best
    }

    /// The fork choice from `cur` with `fuel` steps left: follow best
    /// children until none remains.
    pub open spec fn spec_fork_choice_from(
        &self,
        p: Seq<Observation>,
        cur: Option<u64>,
        fuel: nat,
    ) -> Option<u64>
        decreases fuel,
    {
        if fuel == 0 {
            cur
        } else {
            match self.spec_best_child(p, cur) {
                Some(b) => self.spec_fork_choice_from(p, Some(b), (fuel - 1) as nat),
                None => cur,
            }
        }
    }

    /// The fork choice under panorama `p`: starting at the virtual genesis,
    /// greedily follow the child block with the greatest citing weight,
    /// breaking ties towards the smaller hash.
    pub open spec fn spec_fork_choice(&self, p: Seq<Observation>) -> Option<u64> {
        self.spec_fork_choice_from(p, None, self.units.len() as nat)
    }

    /// Follows best children from `cur` for at most `fuel` steps.  A chain
    /// of best children is never longer than the arena, because heights
    /// strictly increase along it, so arena-many steps reach the tip.
    fn fork_choice_from(&self, p: &Panorama, cur: Option<u64>, fuel: usize) -> (r: Option<u64>)
        requires
            self.wf(),
            p@.len() == self.spec_n(),
            match cur {
                Some(b) => {
                    let j = spec_index_of(self.units@, b);
                    j is Some && self.units@[j.unwrap()].block is Some
                },
                None => true,
            },
        ensures
            r == self.spec_fork_choice_from(p@, cur, fuel as nat),
            match r {
                Some(b) => {
                    let j = spec_index_of(self.units@, b);
                    j is Some && self.units@[j.unwrap()].block is Some
                },
                None => cur is None,
            },
        decreases fuel,
    {
        if fuel == 0 {
            return cur;
        }
        match self.best_child(p, cur) {
            Some(b) => self.fork_choice_from(p, Some(b), fuel - 1),
            None => cur,
        }
    }

    /// Computes the fork choice under panorama `p`: the tip of the chain of
    /// heaviest-cited blocks, or `None` when no block is visible.
    pub fn fork_choice(&self, p: &Panorama) -> (r: Option<u64>)
        requires
            self.wf(),
            p@.len() == self.spec_n(),
        ensures
            r == self.spec_fork_choice(p@),
            match r {
                Some(b) => {
                    let j = spec_index_of(self.units@, b);
                    j is Some && self.units@[j.unwrap()].block is Some
                },
                None => true,
            },
    {
        let fuel = self.units.len();
        self.fork_choice_from(p, None, fuel)
    }

    /// Whether the block with hash `h` is terminal: the externally set stop
    /// condition (a final era height) is reached at it.
    pub open spec fn spec_is_terminal_block(&self, h: u64) -> bool {
        let j = spec_index_of(self.units@, h);
        &&& j is Some
        &&& self.units@[j.unwrap()].block is Some
        &&& match self.params.end_height {
            Some(e) => self.units@[j.unwrap()].block.unwrap().height + 1 >= e,
            None => false,
        }
    }

    /// Whether the block with hash `h` is a terminal (switch) block.
    pub fn is_terminal_block(&self, h: u64) -> (r: bool)
        requires
            self.wf(),
        ensures
            r == self.spec_is_terminal_block(h),
    {
        proof {
            lemma_find_from(self.units@, h, 0);
        }
        let j = match self.find_unit(h) {
            Some(j) => j,
            None => {
                return false;
            },
        };
        let bi = match self.units[j].block {
            Some(bi) => bi,
            None => {
                return false;
            },
        };
        match self.params.end_height {
            Some(e) => bi.height >= e || bi.height + 1 == e,
            None => false,
        }
    }
}

// ---------------------------------------------------------------------------
// Accepting evidence.
// ---------------------------------------------------------------------------
/// Appending a record changes no existing search result; the new record is
/// found only if its hash was absent.
pub proof fn lemma_find_push(s: Seq<UnitRecord>, x: UnitRecord, h: u64, i: int)
    requires
        0 <= i <= s.len(),
    ensures
        spec_find_from(s.push(x), h, i) == match spec_find_from(s, h, i) {
            Some(j) => Some(j),
            None => if x.hash == h {
                Some(s.len() as int)
            } else {
                None
            },
        },
    decreases s.len() - i,
{
    assert(s.push(x).len() == s.len() + 1);
    assert(s.push(x)[s.len() as int] == x);
    if i < s.len() {
        assert(s.push(x)[i] == s[i]);
        if s[i].hash != h {
            lemma_find_push(s, x, h, i + 1);
        }
    }
}

impl State {
    /// A block's height never exceeds its arena index.
    pub proof fn lemma_height_le_index(&self, i: int)
        requires
            self.wf(),
            0 <= i < self.units.len(),
            self.units@[i].block is Some,
        ensures
            self.units@[i].block.unwrap().height <= i,
        decreases i,
    {
        assert(self.spec_unit_wf(i));
        match self.units@[i].block.unwrap().parent {
            Some(p) => {
                lemma_find_from(self.units@, p, 0);
                let pj = spec_index_of(self.units@, p);
                self.lemma_height_le_index(pj.unwrap());
            },
            None => {},
        }
    }

    /// Walks the own-predecessor chain from `start` down to the unit with
    /// sequence number `target`.
    fn find_by_seq(&self, start: usize, target: u64) -> (r: usize)
        requires
            self.wf(),
            start < self.units.len(),
            self.spec_wire(start as int).seq_number >= target,
        ensures
            r < self.units.len(),
            self.spec_wire(r as int).creator == self.spec_wire(start as int).creator,
            self.spec_wire(r as int).seq_number == target,
        decreases self.spec_wire(start as int).seq_number,
    {
        proof {
            assert(self.spec_unit_wf(start as int));
        }
        let w = &self.units[start].swu.wire_unit;
        if w.seq_number == target {
            return start;
        }
        match w.panorama.get(w.creator) {
            Observation::Correct(p) => {
                proof {
                    lemma_find_from(self.units@, p, 0);
                }
                let pj = self.find_unit(p).unwrap();
                self.find_by_seq(pj, target)
            },
            _ => {
                proof {
                    assert(false);
                }
                start
            },
        }
    }
}

/// Marking one validator faulty, with valid evidence stored, preserves
/// well-formedness.
pub proof fn lemma_wf_mark_faulty(pre: State, post: State, c: int, ev: Evidence)
    requires
        pre.wf(),
        0 <= c < pre.spec_n(),
        post.validators == pre.validators,
        post.params == pre.params,
        post.units == pre.units,
        post.endorsements == pre.endorsements,
        post.pan@ == pre.pan@.update(c, Observation::Faulty),
        post.faults@ == pre.faults@.update(c, Some(ev)),
        spec_evidence_valid(ev@, pre.spec_pk(c)),
        ev@.unit1.unit.creator == c,
        ev@.unit1.unit.instance_id == pre.params.instance_id,
    ensures
        post.wf(),
{
    assert(post.spec_n() == pre.spec_n());
    assert(post.pan@.len() == post.spec_n());
    assert forall|i: int| 0 <= i < post.units.len() implies #[trigger] post.spec_unit_wf(i) by {
        assert(pre.spec_unit_wf(i));
        let u = post.units[i];
        let w = u.swu.wire_unit@;
        assert forall|v: int|
            0 <= v < post.spec_n() implies match #[trigger] w.panorama[v] {
            Observation::Correct(h) => {
                let j = spec_index_of(post.units@, h);
                &&& j is Some
                &&& j.unwrap() < i
                &&& post.spec_wire(j.unwrap()).creator == v
                &&& post.spec_wire(j.unwrap()).timestamp <= w.timestamp
            },
            Observation::Faulty => post.spec_is_faulty(v),
            Observation::Null => true,
        } by {
            match w.panorama[v] {
                Observation::Correct(h) => {
                    assert(spec_index_of(post.units@, h) == spec_index_of(pre.units@, h));
                },
                Observation::Faulty => {
                    assert(pre.spec_is_faulty(v));
                },
                _ => {},
            }
        }
        assert(post.spec_is_proposal_shaped(i) == pre.spec_is_proposal_shaped(i)) by {
            assert(post.spec_leader(post.spec_wire(i).timestamp) == pre.spec_leader(
                pre.spec_wire(i).timestamp,
            )) by {
                lemma_pick_by_weight_same(
                    pre,
                    post,
                    post.spec_leader_slot(post.spec_wire(i).timestamp),
                    0,
                );
            }
        }
    }
    assert forall|i: int, j: int|
        0 <= i < post.units.len() && 0 <= j < post.units.len() && i != j && (
        #[trigger] post.spec_wire(i)).creator == (#[trigger] post.spec_wire(j)).creator implies post.spec_wire(
        i,
    ).seq_number != post.spec_wire(j).seq_number by {
        assert(post.spec_wire(i) == pre.spec_wire(i));
        assert(post.spec_wire(j) == pre.spec_wire(j));
    }
    assert forall|v: int| 0 <= v < post.spec_n() implies #[trigger] post.spec_pan_slot_wf(
        v,
    ) by {
        assert(pre.spec_pan_slot_wf(v));
        if v != c {
            assert(post.pan@[v] == pre.pan@[v]);
            assert(post.faults@[v] == pre.faults@[v]);
            match post.pan@[v] {
                Observation::Null => {
                    assert forall|i: int|
                        0 <= i < post.units.len() implies (#[trigger] post.spec_wire(
                        i,
                    )).creator != v by {
                        assert(pre.spec_wire(i).creator != v);
                    }
                },
                Observation::Correct(h) => {
                    assert(spec_index_of(post.units@, h) == spec_index_of(pre.units@, h));
                    let j = spec_index_of(post.units@, h).unwrap();
                    assert forall|i: int|
                        0 <= i < post.units.len() && (#[trigger] post.spec_wire(i)).creator
                        == v implies post.spec_wire(i).seq_number <= post.spec_wire(
                        j,
                    ).seq_number by {
                        assert(pre.spec_wire(i).creator == v);
                    }
                },
                Observation::Faulty => {},
            }
        }
    }
    assert forall|v: int| 0 <= v < post.spec_n() implies match #[trigger] post.faults@[v] {
        Some(e) => spec_evidence_valid(e@, post.spec_pk(v)) && e@.unit1.unit.creator == v
            && e@.unit1.unit.instance_id == post.params.instance_id,
        None => true,
    } by {
        if v != c {
            assert(post.faults@[v] == pre.faults@[v]);
            assert(post.spec_pk(v) == pre.spec_pk(v));
        }
    }
}

impl State {
    /// Whether a piece of evidence is acceptable here: its perpetrator is a
    /// validator of this era, its units belong to this instance, and it is
    /// valid proof of equivocation.
    pub open spec fn spec_evidence_acceptable(&self, evm: crate::evidence::EvidenceModel) -> bool {
        &&& 0 <= evm.unit1.unit.creator < self.spec_n()
        &&& evm.unit1.unit.instance_id == self.params.instance_id
        &&& spec_evidence_valid(evm, self.spec_pk(evm.unit1.unit.creator as int))
    }

    /// Accepts two conflicting units as evidence and marks the creator
    /// faulty.  Idempotent: returns whether the state changed.  Once the
    /// slot is `Faulty` it stays `Faulty` forever.
    pub fn add_evidence(&mut self, ev: Evidence) -> (r: bool)
        requires
            old(self).wf(),
        ensures
            final(self).wf(),
            final(self).validators == old(self).validators,
            final(self).params == old(self).params,
            final(self).units == old(self).units,
            final(self).endorsements == old(self).endorsements,
            r == (old(self).spec_evidence_acceptable(ev@) && !old(self).spec_is_faulty(
                ev@.unit1.unit.creator as int,
            )),
            r ==> final(self).pan@ == old(self).pan@.update(
                ev@.unit1.unit.creator as int,
                Observation::Faulty,
            ) && final(self).faults@ == old(self).faults@.update(
                ev@.unit1.unit.creator as int,
                Some(ev),
            ),
            !r ==> *final(self) == *old(self),
    {
        let c = ev.unit1.wire_unit.creator;
        if c.0 as usize >= self.validators.len() {
            return false;
        }
        if ev.unit2.wire_unit.creator.0 != c.0 {
            return false;
        }
        if ev.unit1.wire_unit.instance_id != self.params.instance_id
            || ev.unit2.wire_unit.instance_id != self.params.instance_id {
            return false;
        }
        if ev.unit1.wire_unit.seq_number != ev.unit2.wire_unit.seq_number {
            return false;
        }
        let h1 = crate::codec::hash_wire_unit(&ev.unit1.wire_unit);
        let h2 = crate::codec::hash_wire_unit(&ev.unit2.wire_unit);
        if h1 == h2 {
            return false;
        }
        let pk = self.validators.get(c).public_key;
        if !pk.verify(h1, &ev.unit1.signature) || !pk.verify(h2, &ev.unit2.signature) {
            return false;
        }
        if self.faults[c.0 as usize].is_some() {
            return false;
        }
        let ghost pre = *self;
        self.pan.set(c, Observation::Faulty);
        self.faults.set(c.0 as usize, Some(ev));
        proof {
            lemma_wf_mark_faulty(pre, *self, c.0 as int, ev);
        }
        true
    }
}

// ---------------------------------------------------------------------------
// Accepting units.
// ---------------------------------------------------------------------------
/// Why a unit was rejected.
#[derive(Clone, Copy, PartialEq, Eq, Structural, Debug)]
pub enum AddUnitError {
    /// The creator index is not a validator of this era.
    Creator,
    /// The panorama has the wrong length, or cites a unit by the wrong
    /// creator.
    Panorama,
    /// The round exponent is out of range.
    RoundExponent,
    /// The unit belongs to another protocol instance.
    InstanceId,
    /// The signature does not verify under the creator's public key.
    Signature,
    /// A cited unit, or the evidence behind a cited fault, is not present.
    MissingDependency,
    /// The unit cites a unit with a later timestamp than its own.
    Timestamp,
    /// The sequence number is not one more than the predecessor's.
    SequenceNumber,
    /// The unit carries a value but is not a correctly shaped proposal.
    Value,
}

/// How `add_unit` reacts to a signed unit.
pub enum AddOutcome {
    /// The unit is rejected with this error; the state does not change.
    Reject(AddUnitError),
    /// A duplicate, or a unit from a creator already marked faulty: accepted
    /// as a no-op.
    NoChange,
    /// The unit extends its creator's swimlane and joins the DAG.
    Extend,
    /// The unit conflicts with its creator's known latest unit: the creator
    /// is marked faulty and the conflicting pair is stored as evidence.
    Conflict,
}

impl State {
    /// Every `Correct` citation resolves and every `Faulty` slot is backed
    /// by evidence.
    pub open spec fn spec_check_deps(&self, m: SignedUnitModel) -> bool {
        forall|v: int|
            0 <= v < self.spec_n() ==> match #[trigger] m.unit.panorama[v] {
                Observation::Correct(h) => spec_has_unit(self.units@, h),
                Observation::Faulty => self.spec_is_faulty(v),
                Observation::Null => true,
            }
    }

    /// Every cited unit was created by the validator it is cited for.
    pub open spec fn spec_check_cite_creators(&self, m: SignedUnitModel) -> bool {
        forall|v: int|
            0 <= v < self.spec_n() ==> match #[trigger] m.unit.panorama[v] {
                Observation::Correct(h) => {
                    let j = spec_index_of(self.units@, h);
                    j is Some && self.spec_wire(j.unwrap()).creator == v
                },
                _ => true,
            }
    }

    /// No cited unit has a later timestamp than the citing unit.
    pub open spec fn spec_check_cite_timestamps(&self, m: SignedUnitModel) -> bool {
        forall|v: int|
            0 <= v < self.spec_n() ==> match #[trigger] m.unit.panorama[v] {
                Observation::Correct(h) => {
                    let j = spec_index_of(self.units@, h);
                    j is Some && self.spec_wire(j.unwrap()).timestamp <= m.unit.timestamp
                },
                _ => true,
            }
    }

    /// The sequence number is the number of the creator's own cited
    /// predecessors: zero with no predecessor, one more than the
    /// predecessor's otherwise.
    pub open spec fn spec_check_seq(&self, m: SignedUnitModel) -> bool {
        match m.unit.panorama[m.unit.creator as int] {
            Observation::Null => m.unit.seq_number == 0,
            Observation::Correct(h) => {
                let j = spec_index_of(self.units@, h);
                j is Some && m.unit.seq_number == self.spec_wire(j.unwrap()).seq_number + 1
            },
            Observation::Faulty => false,
        }
    }

    /// A value is carried only by a correctly shaped proposal: its
    /// timestamp is its round id, its creator leads that round, and it is
    /// the creator's first unit of the round.
    pub open spec fn spec_check_value(&self, m: SignedUnitModel) -> bool {
        m.unit.value is Some ==> {
            &&& m.unit.timestamp == spec_round_id(m.unit.timestamp, m.unit.round_exp)
            &&& self.spec_leader(m.unit.timestamp) == m.unit.creator
            &&& match m.unit.panorama[m.unit.creator as int] {
                Observation::Correct(h) => {
                    let j = spec_index_of(self.units@, h);
                    j is Some && self.spec_wire(j.unwrap()).timestamp < m.unit.timestamp
                },
                _ => true,
            }
        }
    }

    /// The unit extends its creator's known swimlane: it cites exactly the
    /// creator's current tip (or nothing, when none is known).
    pub open spec fn spec_check_extends(&self, m: SignedUnitModel) -> bool {
        match (self.pan@[m.unit.creator as int], m.unit.panorama[m.unit.creator as int]) {
            (Observation::Null, Observation::Null) => true,
            (Observation::Correct(tip), Observation::Correct(p)) => p == tip,
            _ => false,
        }
    }

    /// What `add_unit` does with a signed unit, decided in check order.
    pub open spec fn spec_add_outcome(&self, m: SignedUnitModel) -> AddOutcome {
        let h = spec_unit_hash(m.unit);
        if !(0 <= m.unit.creator < self.spec_n()) {
            AddOutcome::Reject(AddUnitError::Creator)
        } else if m.unit.panorama.len() != self.spec_n() {
            AddOutcome::Reject(AddUnitError::Panorama)
        } else if !valid_round_exp(m.unit.round_exp) {
            AddOutcome::Reject(AddUnitError::RoundExponent)
        } else if m.unit.instance_id != self.params.instance_id {
            AddOutcome::Reject(AddUnitError::InstanceId)
        } else if spec_has_unit(self.units@, h) {
            AddOutcome::NoChange
        } else if self.spec_is_faulty(m.unit.creator as int) {
            AddOutcome::NoChange
        } else if m.sig != spec_sign(self.spec_pk(m.unit.creator as int).key, h) {
            AddOutcome::Reject(AddUnitError::Signature)
        } else if !self.spec_check_deps(m) {
            AddOutcome::Reject(AddUnitError::MissingDependency)
        } else if !self.spec_check_cite_creators(m) {
            AddOutcome::Reject(AddUnitError::Panorama)
        } else if !self.spec_check_cite_timestamps(m) {
            AddOutcome::Reject(AddUnitError::Timestamp)
        } else if !self.spec_check_seq(m) {
            AddOutcome::Reject(AddUnitError::SequenceNumber)
        } else if !self.spec_check_value(m) {
            AddOutcome::Reject(AddUnitError::Value)
        } else if self.spec_check_extends(m) {
            AddOutcome::Extend
        } else {
            AddOutcome::Conflict
        }
    }
}

/// Appending a fully validated extending unit preserves well-formedness.
#[verifier::rlimit(100)]
pub proof fn lemma_wf_extend(pre: State, post: State, rec: UnitRecord)
    requires
        pre.wf(),
        post.validators == pre.validators,
        post.params == pre.params,
        post.faults == pre.faults,
        post.units@ == pre.units@.push(rec),
        post.endorsements@.len() == pre.endorsements@.len() + 1,
        forall|i: int|
            0 <= i < pre.endorsements@.len() ==> post.endorsements@[i] == pre.endorsements@[i],
        post.endorsements@[pre.endorsements@.len() as int]@.len() == pre.spec_n(),
        post.pan@ == pre.pan@.update(
            rec.swu.wire_unit@.creator as int,
            Observation::Correct(rec.hash),
        ),
        0 <= rec.swu.wire_unit@.creator < pre.spec_n(),
        rec.swu.wire_unit@.panorama.len() == pre.spec_n(),
        valid_round_exp(rec.swu.wire_unit@.round_exp),
        rec.swu.wire_unit@.instance_id == pre.params.instance_id,
        rec.hash == spec_unit_hash(rec.swu.wire_unit@),
        rec.swu.signature.sig == spec_sign(
            pre.spec_pk(rec.swu.wire_unit@.creator as int).key,
            rec.hash,
        ),
        !spec_has_unit(pre.units@, rec.hash),
        !pre.spec_is_faulty(rec.swu.wire_unit@.creator as int),
        pre.spec_check_deps(rec.swu@),
        pre.spec_check_cite_creators(rec.swu@),
        pre.spec_check_cite_timestamps(rec.swu@),
        pre.spec_check_seq(rec.swu@),
        pre.spec_check_value(rec.swu@),
        pre.spec_check_extends(rec.swu@),
        rec.swu.wire_unit@.value is Some <==> rec.block is Some,
        match rec.block {
            Some(bi) => match bi.parent {
                Some(p) => {
                    let j = spec_index_of(pre.units@, p);
                    &&& j is Some
                    &&& pre.units@[j.unwrap()].block is Some
                    &&& bi.height == pre.units@[j.unwrap()].block.unwrap().height + 1
                },
                None => bi.height == 0,
            },
            None => true,
        },
        match rec.vote {
            Some(b) => b == rec.hash && rec.block is Some || {
                let j = spec_index_of(pre.units@, b);
                j is Some && pre.units@[j.unwrap()].block is Some
            },
            None => true,
        },
    ensures
        post.wf(),
{
    let m = rec.swu.wire_unit@;
    let c = m.creator as int;
    let ln = pre.units@.len() as int;
    assert(post.spec_n() == pre.spec_n());
    assert forall|h: u64| true implies #[trigger] spec_find_from(post.units@, h, 0) == (
    match spec_find_from(pre.units@, h, 0) {
        Some(j) => Some(j),
        None => if rec.hash == h {
            Some(ln)
        } else {
            None
        },
    }) by {
        lemma_find_push(pre.units@, rec, h, 0);
    }
    assert forall|i: int| 0 <= i < ln implies #[trigger] post.spec_wire(i) == pre.spec_wire(
        i,
    ) by {
        assert(post.units@[i] == pre.units@[i]);
    }
    // Well-formedness of the old units carries over.
    assert forall|i: int| 0 <= i < ln implies #[trigger] post.spec_unit_wf(i) by {
        assert(pre.spec_unit_wf(i));
        let u = post.units@[i];
        let w = u.swu.wire_unit@;
        assert forall|v: int|
            0 <= v < post.spec_n() implies match #[trigger] w.panorama[v] {
            Observation::Correct(h) => {
                let j = spec_index_of(post.units@, h);
                &&& j is Some
                &&& j.unwrap() < i
                &&& post.spec_wire(j.unwrap()).creator == v
                &&& post.spec_wire(j.unwrap()).timestamp <= w.timestamp
            },
            Observation::Faulty => post.spec_is_faulty(v),
            Observation::Null => true,
        } by {
            match w.panorama[v] {
                Observation::Correct(h) => {
                    assert(spec_find_from(post.units@, h, 0) == spec_find_from(
                        pre.units@,
                        h,
                        0,
                    ));
                    lemma_find_from(pre.units@, h, 0);
                    if spec_index_of(pre.units@, h) is Some {
                        let j = spec_index_of(pre.units@, h).unwrap();
                        assert(post.spec_wire(j) == pre.spec_wire(j));
                    }
                },
                _ => {},
            }
        }
        assert(post.spec_is_proposal_shaped(i) == pre.spec_is_proposal_shaped(i)) by {
            lemma_pick_by_weight_same(
                pre,
                post,
                post.spec_leader_slot(post.spec_wire(i).timestamp),
                0,
            );
            assert(post.spec_leader_slot(post.spec_wire(i).timestamp) == pre.spec_leader_slot(
                pre.spec_wire(i).timestamp,
            ));
            match w.panorama[w.creator as int] {
                Observation::Correct(h) => {
                    assert(spec_find_from(post.units@, h, 0) == spec_find_from(
                        pre.units@,
                        h,
                        0,
                    ));
                    lemma_find_from(pre.units@, h, 0);
                    if spec_index_of(pre.units@, h) is Some {
                        let j = spec_index_of(pre.units@, h).unwrap();
                        assert(post.spec_wire(j) == pre.spec_wire(j));
                    }
                },
                _ => {},
            }
        }
        match w.panorama[w.creator as int] {
            Observation::Correct(h) => {
                assert(spec_find_from(post.units@, h, 0) == spec_find_from(pre.units@, h, 0));
                lemma_find_from(pre.units@, h, 0);
                if spec_index_of(pre.units@, h) is Some {
                    let j = spec_index_of(pre.units@, h).unwrap();
                    assert(post.spec_wire(j) == pre.spec_wire(j));
                }
            },
            _ => {},
        }
        match u.block {
            Some(bi) => match bi.parent {
                Some(p) => {
                    assert(spec_find_from(post.units@, p, 0) == spec_find_from(
                        pre.units@,
                        p,
                        0,
                    ));
                    lemma_find_from(pre.units@, p, 0);
                    if spec_index_of(pre.units@, p) is Some {
                        let j = spec_index_of(pre.units@, p).unwrap();
                        assert(post.units@[j] == pre.units@[j]);
                    }
                },
                None => {},
            },
            None => {},
        }
        match u.vote {
            Some(b) => {
                assert(spec_find_from(post.units@, b, 0) == spec_find_from(pre.units@, b, 0));
                lemma_find_from(pre.units@, b, 0);
                if spec_index_of(pre.units@, b) is Some {
                    let j = spec_index_of(pre.units@, b).unwrap();
                    assert(post.units@[j] == pre.units@[j]);
                }
            },
            None => {},
        }
    }
    // Well-formedness of the new unit.
    assert(post.spec_unit_wf(ln)) by {
        assert(post.units@[ln] == rec);
        assert(post.spec_wire(ln) == m);
        assert forall|v: int|
            0 <= v < post.spec_n() implies match #[trigger] m.panorama[v] {
            Observation::Correct(h) => {
                let j = spec_index_of(post.units@, h);
                &&& j is Some
                &&& j.unwrap() < ln
                &&& post.spec_wire(j.unwrap()).creator == v
                &&& post.spec_wire(j.unwrap()).timestamp <= m.timestamp
            },
            Observation::Faulty => post.spec_is_faulty(v),
            Observation::Null => true,
        } by {
            match m.panorama[v] {
                Observation::Correct(h) => {
                    lemma_find_from(pre.units@, h, 0);
                },
                _ => {},
            }
        }
        match m.panorama[c] {
            Observation::Correct(h) => {
                assert(spec_find_from(post.units@, h, 0) == spec_find_from(pre.units@, h, 0));
                lemma_find_from(pre.units@, h, 0);
                if spec_index_of(pre.units@, h) is Some {
                    let j = spec_index_of(pre.units@, h).unwrap();
                    assert(post.spec_wire(j) == pre.spec_wire(j));
                }
            },
            _ => {},
        }
        match rec.block {
            Some(bi) => match bi.parent {
                Some(p) => {
                    assert(spec_find_from(post.units@, p, 0) == spec_find_from(
                        pre.units@,
                        p,
                        0,
                    ));
                    lemma_find_from(pre.units@, p, 0);
                    if spec_index_of(pre.units@, p) is Some {
                        let j = spec_index_of(pre.units@, p).unwrap();
                        assert(post.units@[j] == pre.units@[j]);
                    }
                },
                None => {},
            },
            None => {},
        }
        match rec.vote {
            Some(b) => {
                lemma_find_from(pre.units@, b, 0);
                if b == rec.hash {
                    lemma_find_from(pre.units@, rec.hash, 0);
                    assert(spec_index_of(post.units@, b) == Some(ln));
                } else {
                    if spec_index_of(pre.units@, b) is Some {
                        let j = spec_index_of(pre.units@, b).unwrap();
                        assert(post.units@[j] == pre.units@[j]);
                    }
                }
            },
            None => {},
        }
        assert(m.value is Some ==> post.spec_is_proposal_shaped(ln)) by {
            if m.value is Some {
                lemma_pick_by_weight_same(pre, post, post.spec_leader_slot(m.timestamp), 0);
                match m.panorama[c] {
                    Observation::Correct(h) => {
                        lemma_find_from(pre.units@, h, 0);
                        if spec_index_of(pre.units@, h) is Some {
                            let j = spec_index_of(pre.units@, h).unwrap();
                            assert(post.spec_wire(j) == pre.spec_wire(j));
                        }
                    },
                    _ => {},
                }
            }
        }
    }
    // No two units share a hash.
    assert forall|i: int, j: int|
        0 <= i < j < post.units.len() implies (#[trigger] post.units@[i]).hash != (
    #[trigger] post.units@[j]).hash by {
        if j < ln {
        } else {
            lemma_find_from(pre.units@, rec.hash, 0);
        }
    }
    // No two units by one creator share a sequence number.
    assert forall|i: int, j: int|
        0 <= i < post.units.len() && 0 <= j < post.units.len() && i != j && (
        #[trigger] post.spec_wire(i)).creator == (#[trigger] post.spec_wire(j)).creator implies post.spec_wire(
        i,
    ).seq_number != post.spec_wire(j).seq_number by {
        assert(pre.spec_pan_slot_wf(c));
        if i == ln || j == ln {
            let o = if i == ln {
                j
            } else {
                i
            };
            if 0 <= o < ln && pre.spec_wire(o).creator == m.creator {
                match (pre.pan@[c], m.panorama[c]) {
                    (Observation::Null, Observation::Null) => {
                        assert(pre.spec_wire(o).creator != c);
                    },
                    (Observation::Correct(tip), Observation::Correct(p)) => {
                        let tj = spec_index_of(pre.units@, tip);
                        lemma_find_from(pre.units@, tip, 0);
                        assert(pre.spec_wire(o).seq_number <= pre.spec_wire(
                            tj.unwrap(),
                        ).seq_number);
                    },
                    _ => {},
                }
            }
        }
    }
    // The panorama slots stay well formed.
    assert forall|v: int| 0 <= v < post.spec_n() implies #[trigger] post.spec_pan_slot_wf(
        v,
    ) by {
        assert(pre.spec_pan_slot_wf(v));
        assert(post.units@[ln] == rec);
        assert(post.spec_wire(ln) == m);
        if v == c {
            assert(post.pan@[c] == Observation::Correct(rec.hash));
            lemma_find_from(pre.units@, rec.hash, 0);
            assert(spec_index_of(post.units@, rec.hash) == Some(ln));
            assert forall|i: int|
                0 <= i < post.units.len() && (#[trigger] post.spec_wire(i)).creator
                == c implies post.spec_wire(i).seq_number <= post.spec_wire(
                ln,
            ).seq_number by {
                if i < ln {
                    match (pre.pan@[c], m.panorama[c]) {
                        (Observation::Null, Observation::Null) => {
                            assert(pre.spec_wire(i).creator != c);
                        },
                        (Observation::Correct(tip), Observation::Correct(p)) => {
                            let tj = spec_index_of(pre.units@, tip);
                            lemma_find_from(pre.units@, tip, 0);
                            assert(pre.spec_wire(i).seq_number <= pre.spec_wire(
                                tj.unwrap(),
                            ).seq_number);
                        },
                        _ => {},
                    }
                }
            }
        } else {
            assert(post.pan@[v] == pre.pan@[v]);
            match post.pan@[v] {
                Observation::Null => {
                    assert forall|i: int|
                        0 <= i < post.units.len() implies (#[trigger] post.spec_wire(
                        i,
                    )).creator != v by {
                        if i < ln {
                            assert(pre.spec_wire(i).creator != v);
                        } else {
                            assert(post.spec_wire(i) == m);
                        }
                    }
                },
                Observation::Correct(h) => {
                    assert(spec_find_from(post.units@, h, 0) == spec_find_from(
                        pre.units@,
                        h,
                        0,
                    ));
                    lemma_find_from(pre.units@, h, 0);
                    let j = spec_index_of(pre.units@, h).unwrap();
                    assert(post.spec_wire(j) == pre.spec_wire(j));
                    assert forall|i: int|
                        0 <= i < post.units.len() && (#[trigger] post.spec_wire(i)).creator
                        == v implies post.spec_wire(i).seq_number <= post.spec_wire(
                        j,
                    ).seq_number by {
                        if i < ln {
                            assert(pre.spec_wire(i).creator == v);
                        } else {
                            assert(post.spec_wire(i) == m);
                        }
                    }
                },
                Observation::Faulty => {},
            }
        }
    }
    assert forall|v: int| 0 <= v < post.spec_n() implies match #[trigger] post.faults@[v] {
        Some(e) => spec_evidence_valid(e@, post.spec_pk(v)) && e@.unit1.unit.creator == v
            && e@.unit1.unit.instance_id == post.params.instance_id,
        None => true,
    } by {
        assert(post.faults@[v] == pre.faults@[v]);
        assert(post.spec_pk(v) == pre.spec_pk(v));
    }
    assert(post.wf());
}

impl State {
    /// Accepts a signed unit into the DAG after structural, signature,
    /// dependency, sequence, timestamp and proposal-shape checks.
    ///
    /// On success the unit's hash is returned.  A duplicate, or a unit from
    /// a creator already marked faulty, is a no-op success.  A unit that
    /// conflicts with its creator's known latest unit is itself kept out of
    /// the DAG; instead the conflicting pair is stored as evidence and the
    /// creator is marked faulty forever.
    #[verifier::rlimit(100)]
    #[verifier::loop_isolation(false)]
    pub fn add_unit(&mut self, swu: SignedWireUnit) -> (r: Result<u64, AddUnitError>)
        requires
            old(self).wf(),
        ensures
            final(self).wf(),
            final(self).validators == old(self).validators,
            final(self).params == old(self).params,
            match old(self).spec_add_outcome(swu@) {
                AddOutcome::Reject(e) => r == Err::<u64, AddUnitError>(e) && *final(self)
                    == *old(self),
                AddOutcome::NoChange => r == Ok::<u64, AddUnitError>(
                    spec_unit_hash(swu@.unit),
                ) && *final(self) == *old(self),
                AddOutcome::Extend => {
                    let h = spec_unit_hash(swu@.unit);
                    let c = swu@.unit.creator as int;
                    let ln = old(self).units@.len() as int;
                    &&& r == Ok::<u64, AddUnitError>(h)
                    &&& final(self).units@.len() == ln + 1
                    &&& forall|i: int|
                        0 <= i < ln ==> #[trigger] final(self).units@[i] == old(self).units@[i]
                    &&& final(self).units@[ln].swu == swu
                    &&& final(self).units@[ln].hash == h
                    &&& final(self).units@[ln].vote == (if swu@.unit.value is Some {
                        Some(h)
                    } else {
                        old(self).spec_fork_choice(swu@.unit.panorama)
                    })
                    &&& (final(self).units@[ln].block is Some <==> swu@.unit.value is Some)
                    &&& final(self).pan@ == old(self).pan@.update(c, Observation::Correct(h))
                    &&& final(self).faults == old(self).faults
                },
                AddOutcome::Conflict => {
                    let h = spec_unit_hash(swu@.unit);
                    let c = swu@.unit.creator as int;
                    &&& r == Ok::<u64, AddUnitError>(h)
                    &&& final(self).units == old(self).units
                    &&& final(self).endorsements == old(self).endorsements
                    &&& final(self).pan@ == old(self).pan@.update(c, Observation::Faulty)
                    &&& final(self).faults@[c] is Some
                    &&& final(self).faults@[c].unwrap()@.unit2 == swu@
                    &&& final(self).faults@[c].unwrap()@.unit1.unit.creator == swu@.unit.creator
                    &&& final(self).faults@[c].unwrap()@.unit1.unit.seq_number
                        == swu@.unit.seq_number
                    &&& forall|v: int|
                        0 <= v < old(self).spec_n() && v != c
                            ==> #[trigger] final(self).faults@[v] == old(self).faults@[v]
                },
            },
    {
        let ghost m = swu@;
        let n = self.validators.len();
        let creator = swu.wire_unit.creator;
        if creator.0 as usize >= n {
            return Err(AddUnitError::Creator);
        }
        if swu.wire_unit.panorama.len() != n {
            return Err(AddUnitError::Panorama);
        }
        if swu.wire_unit.round_exp >= 64 {
            return Err(AddUnitError::RoundExponent);
        }
        if swu.wire_unit.instance_id != self.params.instance_id {
            return Err(AddUnitError::InstanceId);
        }
        let h = crate::codec::hash_wire_unit(&swu.wire_unit);
        if self.has_unit(h) {
            return Ok(h);
        }
        if self.faults[creator.0 as usize].is_some() {
            return Ok(h);
        }
        let pk = self.validators.get(creator).public_key;
        if !pk.verify(h, &swu.signature) {
            return Err(AddUnitError::Signature);
        }
        // Dependencies: every cited unit and every cited fault must be known.
        let mut v: usize = 0;
        while v < n
            invariant
                0 <= v <= n,
                forall|k: int|
                    0 <= k < v ==> match #[trigger] m.unit.panorama[k] {
                        Observation::Correct(hk) => spec_has_unit(self.units@, hk),
                        Observation::Faulty => self.spec_is_faulty(k),
                        Observation::Null => true,
                    },
            decreases n - v,
        {
            match swu.wire_unit.panorama.get(ValidatorIndex(v as u32)) {
                Observation::Correct(hk) => {
                    if !self.has_unit(hk) {
                        return Err(AddUnitError::MissingDependency);
                    }
                },
                Observation::Faulty => {
                    if !self.faults[v].is_some() {
                        return Err(AddUnitError::MissingDependency);
                    }
                },
                Observation::Null => {},
            }
            v = v + 1;
        }
        proof {
            assert(self.spec_check_deps(m));
        }
        // Citations: each cited unit by the right creator, none from the future.
        let mut v2: usize = 0;
        while v2 < n
            invariant
                0 <= v2 <= n,
                self.spec_check_deps(m),
                forall|k: int|
                    0 <= k < v2 ==> match #[trigger] m.unit.panorama[k] {
                        Observation::Correct(hk) => {
                            let j = spec_index_of(self.units@, hk);
                            j is Some && self.spec_wire(j.unwrap()).creator == k
                        },
                        _ => true,
                    },
            decreases n - v2,
        {
            match swu.wire_unit.panorama.get(ValidatorIndex(v2 as u32)) {
                Observation::Correct(hk) => {
                    proof {
                        lemma_find_from(self.units@, hk, 0);
                    }
                    let u = self.unit(hk);
                    if u.swu.wire_unit.creator.0 != v2 as u32 {
                        return Err(AddUnitError::Panorama);
                    }
                },
                _ => {},
            }
            v2 = v2 + 1;
        }
        proof {
            assert(self.spec_check_cite_creators(m));
        }
        let mut v3: usize = 0;
        while v3 < n
            invariant
                0 <= v3 <= n,
                self.spec_check_deps(m),
                self.spec_check_cite_creators(m),
                forall|k: int|
                    0 <= k < v3 ==> match #[trigger] m.unit.panorama[k] {
                        Observation::Correct(hk) => {
                            let j = spec_index_of(self.units@, hk);
                            j is Some && self.spec_wire(j.unwrap()).timestamp
                                <= m.unit.timestamp
                        },
                        _ => true,
                    },
            decreases n - v3,
        {
            match swu.wire_unit.panorama.get(ValidatorIndex(v3 as u32)) {
                Observation::Correct(hk) => {
                    proof {
                        lemma_find_from(self.units@, hk, 0);
                    }
                    let u = self.unit(hk);
                    if u.swu.wire_unit.timestamp.millis > swu.wire_unit.timestamp.millis {
                        return Err(AddUnitError::Timestamp);
                    }
                },
                _ => {},
            }
            v3 = v3 + 1;
        }
        proof {
            assert(self.spec_check_cite_timestamps(m));
        }
        // The sequence number is decided by the creator's own citation.
        let expected_seq: u64 = match swu.wire_unit.panorama.get(creator) {
            Observation::Null => 0,
            Observation::Correct(p) => {
                let arena_len = self.units.len();
                proof {
                    lemma_find_from(self.units@, p, 0);
                    self.lemma_seq_le_index(spec_index_of(self.units@, p).unwrap());
                }
                let u = self.unit(p);
                u.swu.wire_unit.seq_number + 1
            },
            Observation::Faulty => {
                return Err(AddUnitError::SequenceNumber);
            },
        };
        if swu.wire_unit.seq_number != expected_seq {
            return Err(AddUnitError::SequenceNumber);
        }
        proof {
            assert(self.spec_check_seq(m));
        }
        // A value may only ride on a correctly shaped proposal.
        if swu.wire_unit.value.is_some() {
            let ts = swu.wire_unit.timestamp;
            let rid = crate::round::round_id(ts, swu.wire_unit.round_exp);
            if ts.millis != rid.millis {
                return Err(AddUnitError::Value);
            }
            let ld = self.leader(rid);
            if ld.0 != creator.0 {
                return Err(AddUnitError::Value);
            }
            match swu.wire_unit.panorama.get(creator) {
                Observation::Correct(p) => {
                    proof {
                        lemma_find_from(self.units@, p, 0);
                    }
                    let u = self.unit(p);
                    if u.swu.wire_unit.timestamp.millis >= ts.millis {
                        return Err(AddUnitError::Value);
                    }
                },
                _ => {},
            }
        }
        proof {
            assert(self.spec_check_value(m));
        }
        // Extension or conflict.
        let extends: bool = match (self.pan.get(creator), swu.wire_unit.panorama.get(creator)) {
            (Observation::Null, Observation::Null) => true,
            (Observation::Correct(tip), Observation::Correct(p)) => p == tip,
            _ => false,
        };
        if extends {
            let ghost pre = *self;
            let vote: Option<u64>;
            let block: Option<BlockInfo>;
            if swu.wire_unit.value.is_some() {
                let fc = self.fork_choice(&swu.wire_unit.panorama);
                let height: u64 = match fc {
                    Some(pb) => {
                        proof {
                            lemma_find_from(self.units@, pb, 0);
                            self.lemma_height_le_index(
                                spec_index_of(self.units@, pb).unwrap(),
                            );
                        }
                        let arena_len = self.units.len();
                        let pbi = self.unit(pb).block.unwrap();
                        pbi.height + 1
                    },
                    None => 0,
                };
                vote = Some(h);
                block = Some(BlockInfo { parent: fc, height });
            } else {
                vote = self.fork_choice(&swu.wire_unit.panorama);
                block = None;
            }
            let rec = UnitRecord { swu, hash: h, vote, block };
            let mut row: Vec<bool> = Vec::with_capacity(n);
            let mut z: usize = 0;
            while z < n
                invariant
                    0 <= z <= n,
                    row@.len() == z,
                decreases n - z,
            {
                row.push(false);
                z = z + 1;
            }
            self.units.push(rec);
            self.endorsements.push(row);
            self.pan.set(creator, Observation::Correct(h));
            proof {
                lemma_wf_extend(pre, *self, rec);
            }
            Ok(h)
        } else {
            // The unit conflicts with the creator's known latest unit: find
            // the existing unit with the same sequence number and store the
            // pair as evidence.
            let tip = match self.pan.get(creator) {
                Observation::Correct(tip) => tip,
                _ => {
                    proof {
                        assert(self.spec_pan_slot_wf(creator.0 as int));
                        let own_obs = m.unit.panorama[creator.0 as int];
                        match (self.pan@[creator.0 as int], own_obs) {
                            (Observation::Null, Observation::Correct(p)) => {
                                lemma_find_from(self.units@, p, 0);
                                let j = spec_index_of(self.units@, p).unwrap();
                                assert(self.spec_wire(j).creator == creator.0);
                                assert(false);
                            },
                            _ => {
                                assert(false);
                            },
                        }
                    }
                    return Err(AddUnitError::Panorama);
                },
            };
            proof {
                lemma_find_from(self.units@, tip, 0);
                assert(self.spec_pan_slot_wf(creator.0 as int));
            }
            let tj = self.find_unit(tip).unwrap();
            proof {
                // The new sequence number cannot exceed the tip's.
                match m.unit.panorama[creator.0 as int] {
                    Observation::Correct(p) => {
                        lemma_find_from(self.units@, p, 0);
                        let pj = spec_index_of(self.units@, p).unwrap();
                        assert(self.spec_wire(pj).creator == creator.0);
                        assert(self.spec_wire(pj).seq_number <= self.spec_wire(
                            tj as int,
                        ).seq_number);
                        if pj != tj as int {
                            assert(self.spec_wire(pj).seq_number != self.spec_wire(
                                tj as int,
                            ).seq_number);
                        } else {
                            assert(p == tip);
                            assert(false);
                        }
                    },
                    Observation::Null => {},
                    Observation::Faulty => {
                        assert(false);
                    },
                }
            }
            let ej = self.find_by_seq(tj, swu.wire_unit.seq_number);
            let existing = self.units[ej].swu.duplicate();
            let ev = Evidence { unit1: existing, unit2: swu };
            proof {
                assert(self.spec_unit_wf(ej as int));
                lemma_find_from(self.units@, h, 0);
                assert(self.units@[ej as int].hash == spec_unit_hash(ev@.unit1.unit));
                assert(spec_unit_hash(ev@.unit1.unit) != spec_unit_hash(ev@.unit2.unit));
                assert(spec_evidence_valid(ev@, self.spec_pk(creator.0 as int)));
            }
            let ghost pre = *self;
            self.pan.set(creator, Observation::Faulty);
            self.faults.set(creator.0 as usize, Some(ev));
            proof {
                lemma_wf_mark_faulty(pre, *self, creator.0 as int, ev);
            }
            Ok(h)
        }
    }
}

impl State {
    /// Whether the unit at index `j` is a correct proposal: it carries a
    /// value, its timestamp is exactly its round id, and its creator leads
    /// that round.
    pub open spec fn spec_is_correct_proposal(&self, j: int) -> bool
        recommends
            0 <= j < self.units.len(),
    {
        let w = self.spec_wire(j);
        &&& w.value is Some
        &&& w.timestamp == spec_round_id(w.timestamp, w.round_exp)
        &&& self.spec_leader(w.timestamp) == w.creator
    }

    /// Whether the unit at index `j` is a correct proposal.
    pub fn is_correct_proposal(&self, j: usize) -> (r: bool)
        requires
            self.wf(),
            j < self.units.len(),
        ensures
            r == self.spec_is_correct_proposal(j as int),
    {
        proof {
            assert(self.spec_unit_wf(j as int));
        }
        let w = &self.units[j].swu.wire_unit;
        if w.value.is_none() {
            return false;
        }
        let rid = round_id(w.timestamp, w.round_exp);
        if w.timestamp.millis != rid.millis {
            return false;
        }
        self.leader(w.timestamp).0 == w.creator.0
    }
}

// ---------------------------------------------------------------------------
// Laws of the accepted DAG.
// ---------------------------------------------------------------------------
/// Every accepted unit's signature verifies under its creator's public key
/// over the unit's canonical hash, and its sequence number equals the number
/// of the creator's prior units cited through its panorama: zero without a
/// cited predecessor, one more than the predecessor's otherwise.
pub proof fn lemma_accepted_unit_signed_and_sequenced(s: &State, i: int)
    requires
        s.wf(),
        0 <= i < s.units@.len(),
    ensures
        s.units@[i].hash == spec_unit_hash(s.spec_wire(i)),
        s.units@[i].swu.signature.sig == spec_sign(
            s.spec_pk(s.spec_wire(i).creator as int).key,
            s.units@[i].hash,
        ),
        s.spec_wire(i).seq_number == s.spec_next_seq(
            s.spec_wire(i).panorama,
            s.spec_wire(i).creator as int,
        ),
{
    assert(s.spec_unit_wf(i));
}

/// The unit with the given sequence number on the swimlane below index `j`:
/// it exists, belongs to the same creator, and is no later than `j`.
pub proof fn lemma_swimlane_ancestor(s: &State, j: int, target: int) -> (i: int)
    requires
        s.wf(),
        0 <= j < s.units@.len(),
        0 <= target <= s.spec_wire(j).seq_number,
    ensures
        0 <= i < s.units@.len(),
        s.spec_wire(i).creator == s.spec_wire(j).creator,
        s.spec_wire(i).seq_number == target,
        s.spec_wire(i).timestamp <= s.spec_wire(j).timestamp,
    decreases s.spec_wire(j).seq_number,
{
    assert(s.spec_unit_wf(j));
    if target == s.spec_wire(j).seq_number {
        j
    } else {
        let w = s.spec_wire(j);
        match w.panorama[w.creator as int] {
            Observation::Correct(h) => {
                lemma_find_from(s.units@, h, 0);
                let p = spec_index_of(s.units@, h).unwrap();
                let i = lemma_swimlane_ancestor(s, p, target);
                i
            },
            _ => {
                assert(false);
                0
            },
        }
    }
}

/// Helper for proposal uniqueness: two distinct proposals by one creator at
/// one timestamp cannot be ordered by sequence number.
proof fn lemma_proposal_round_unique_ordered(s: &State, i: int, j: int)
    requires
        s.wf(),
        0 <= i < s.units@.len(),
        0 <= j < s.units@.len(),
        s.spec_wire(i).value is Some,
        s.spec_wire(j).value is Some,
        s.spec_wire(i).creator == s.spec_wire(j).creator,
        s.spec_wire(i).timestamp == s.spec_wire(j).timestamp,
        s.spec_wire(i).seq_number < s.spec_wire(j).seq_number,
    ensures
        i == j,
{
    assert(s.spec_unit_wf(i));
    assert(s.spec_unit_wf(j));
    // The later proposal's own predecessor precedes its round, yet the
    // earlier proposal lies at or below that predecessor on the swimlane
    // with the same timestamp: a contradiction.
    let wj = s.spec_wire(j);
    assert(s.spec_is_proposal_shaped(j));
    match wj.panorama[wj.creator as int] {
        Observation::Correct(h) => {
            lemma_find_from(s.units@, h, 0);
            let p = spec_index_of(s.units@, h).unwrap();
            assert(s.spec_wire(p).seq_number + 1 == wj.seq_number);
            let a = lemma_swimlane_ancestor(s, p, s.spec_wire(i).seq_number as int);
            assert(a == i);
            assert(s.spec_wire(i).timestamp <= s.spec_wire(p).timestamp);
            assert(s.spec_wire(p).timestamp < wj.timestamp);
        },
        _ => {
            assert(wj.seq_number == 0);
        },
    }
}

/// At most one proposal per creator and round stands in the DAG: two
/// accepted proposal units by one creator with the same timestamp (a
/// proposal's timestamp is its round id) are the same unit.
pub proof fn lemma_at_most_one_proposal_per_round(s: &State, i: int, j: int)
    requires
        s.wf(),
        0 <= i < s.units@.len(),
        0 <= j < s.units@.len(),
        s.spec_wire(i).value is Some,
        s.spec_wire(j).value is Some,
        s.spec_wire(i).creator == s.spec_wire(j).creator,
        s.spec_wire(i).timestamp == s.spec_wire(j).timestamp,
    ensures
        i == j,
{
    if i != j {
        assert(s.spec_wire(i).seq_number != s.spec_wire(j).seq_number);
        if s.spec_wire(i).seq_number < s.spec_wire(j).seq_number {
            lemma_proposal_round_unique_ordered(s, i, j);
        } else {
            lemma_proposal_round_unique_ordered(s, j, i);
        }
    }
}

impl State {
    /// The block data of the proposal unit with hash `h`.
    pub fn block(&self, h: u64) -> (r: BlockInfo)
        requires
            self.wf(),
            spec_has_unit(self.units@, h),
            self.units@[spec_index_of(self.units@, h).unwrap()].block is Some,
        ensures
            Some(r) == self.units@[spec_index_of(self.units@, h).unwrap()].block,
    {
        proof {
            lemma_find_from(self.units@, h, 0);
        }
        self.unit(h).block.unwrap()
    }
}

} // verus!
