//! The finality detector: derives the next finalized block from the DAG
//! using a weighted-summit rule.  Finalization is monotonic: once returned, a
//! block hash is immutable in the finalized sequence.

use vstd::prelude::*;

use crate::panorama::Observation;
use crate::state::{spec_index_of, State};
use crate::validators::{spec_weight_sum, ValidatorIndex, Weight};

verus! {

/// Turns accumulated unit weight into an irrevocable decision on a proposed
/// block, given a minimum fault-tolerance threshold.
pub struct FinalityDetector {
    /// The fault tolerance threshold: finalization requires a committee so
    /// heavy that violating it needs more than this much equivocating
    /// weight.
    pub ftt: Weight,
    /// The finalized block hashes, oldest first.  Only ever appended to.
    pub finalized: Vec<u64>,
}

impl State {
    /// Whether the unit at index `i` sees the block with hash `b`: it is
    /// that block's proposal itself, or its panorama sees it as correct.
    pub open spec fn spec_sees_unit(&self, i: int, b: u64) -> bool {
        self.units@[i].hash == b || self.spec_sees_correct(self.spec_wire(i).panorama, b)
    }

    /// The earliest unit on the swimlane ending at index `i` all of whose
    /// descendants (including itself) see `b`.
    pub open spec fn spec_earliest_seeing(&self, i: int, b: u64) -> int
        decreases i,
    {
        if !(0 <= i < self.units.len()) {
            i
        } else {
            let w = self.spec_wire(i);
            match w.panorama[w.creator as int] {
                Observation::Correct(p) => {
                    let pj = spec_index_of(self.units@, p);
                    if pj is Some && 0 <= pj.unwrap() < i && self.spec_sees_unit(
                        pj.unwrap(),
                        b,
                    ) {
                        self.spec_earliest_seeing(pj.unwrap(), b)
                    } else {
                        i
                    }
                },
                _ => i,
            }
        }
    }

    /// The index of validator `v`'s level-0 unit for block `b`: the earliest
    /// own unit from which `v` has continuously seen `b`.
    pub open spec fn spec_lvl0(&self, v: int, b: u64) -> Option<int> {
        match self.pan@[v] {
            Observation::Correct(tip) => {
                let tj = spec_index_of(self.units@, tip);
                if tj is Some && self.spec_sees_unit(tj.unwrap(), b) {
                    Some(self.spec_earliest_seeing(tj.unwrap(), b))
                } else {
                    None
                }
            },
            _ => None,
        }
    }

    /// Whether member `v`'s latest unit sees member `w`'s level-0 unit.
    pub open spec fn spec_sees_member(&self, v: int, w: int, b: u64) -> bool {
        match (self.pan@[v], self.spec_lvl0(w, b)) {
            (Observation::Correct(tip), Some(l0)) => {
                let tj = spec_index_of(self.units@, tip);
                &&& tj is Some
                &&& 0 <= l0 < self.units.len()
                &&& self.spec_sees_unit(tj.unwrap(), self.units@[l0].hash)
            },
            _ => false,
        }
    }

    /// The starting committee for block `b`: every correct validator with a
    /// level-0 unit.
    pub open spec fn spec_committee_start(&self, b: u64) -> Seq<bool> {
        Seq::new(self.spec_n() as nat, |v: int| self.spec_lvl0(v, b) is Some)
    }

    /// One committee refinement step: a member stays only while its latest
    /// unit sees every remaining member's level-0 unit.
    pub open spec fn spec_refine_step(&self, b: u64, marks: Seq<bool>) -> Seq<bool> {
        Seq::new(
            marks.len(),
            |v: int|
                marks[v] && forall|w: int|
                    0 <= w < marks.len() && marks[w] ==> #[trigger] self.spec_sees_member(
                        v,
                        w,
                        b,
                    ),
        )
    }

    /// The committee after `fuel` refinement steps.
    pub open spec fn spec_refine(&self, b: u64, marks: Seq<bool>, fuel: nat) -> Seq<bool>
        decreases fuel,
    {
        if fuel == 0 {
            marks
        } else {
            self.spec_refine(b, self.spec_refine_step(b, marks), (fuel - 1) as nat)
        }
    }

    /// The mutually seeing committee over block `b`: the refinement
    /// stabilizes after at most one step per validator.
    pub open spec fn spec_committee(&self, b: u64) -> Seq<bool> {
        self.spec_refine(b, self.spec_committee_start(b), (self.spec_n() + 1) as nat)
    }

    /// The weight of the marked validators `0 .. v`.
    pub open spec fn spec_marked_weight(&self, marks: Seq<bool>, v: int) -> int
        decreases v,
    {
        if v <= 0 || v > self.spec_n() || marks.len() != self.spec_n() {
            0
        } else {
            self.spec_marked_weight(marks, v - 1) + if marks[v - 1] {
                self.validators.list@[v - 1].weight as int
            } else {
                0
            }
        }
    }

    /// Whether block `b` has a finalizing summit under fault tolerance
    /// `ftt`: twice the committee's weight exceeds the total weight plus the
    /// tolerated fault weight.
    pub open spec fn spec_summit_ok(&self, b: u64, ftt: u64) -> bool {
        2 * self.spec_marked_weight(self.spec_committee(b), self.spec_n())
            > self.validators.spec_total_weight() + ftt
    }
}

impl FinalityDetector {
    /// Creates a detector with the given fault tolerance threshold.
    pub fn new(ftt: Weight) -> (r: FinalityDetector)
        ensures
            r.ftt == ftt,
            r.finalized@ =~= Seq::<u64>::empty(),
    {
        FinalityDetector { ftt, finalized: Vec::new() }
    }

    /// The hash of the last finalized block, if any.
    pub open spec fn spec_last(&self) -> Option<u64> {
        if self.finalized@.len() == 0 {
            None
        } else {
            Some(self.finalized@.last())
        }
    }

    /// The last finalized block hash.
    pub fn last_finalized(&self) -> (r: Option<u64>)
        ensures
            r == self.spec_last(),
    {
        if self.finalized.len() == 0 {
            None
        } else {
            Some(self.finalized[self.finalized.len() - 1])
        }
    }

    /// Returns the next finalized block, if the fork choice's next block has
    /// accumulated a summit of sufficient weight.
    ///
    /// Adding units never decreases the finalized prefix: the previously
    /// finalized sequence is always a prefix of the new one.
    pub fn next_finalized(&mut self, s: &State) -> (r: Option<u64>)
        requires
            s.wf(),
            match old(self).spec_last() {
                Some(b) => {
                    let j = spec_index_of(s.units@, b);
                    j is Some && s.units@[j.unwrap()].block is Some
                },
                None => true,
            },
        ensures
            final(self).ftt == old(self).ftt,
            old(self).finalized@.is_prefix_of(final(self).finalized@),
            match r {
                Some(b) => {
                    &&& s.spec_best_child(s.pan@, old(self).spec_last()) == Some(b)
                    &&& s.spec_summit_ok(b, old(self).ftt.0)
                    &&& final(self).finalized@ =~= old(self).finalized@.push(b)
                },
                None => {
                    &&& final(self).finalized@ =~= old(self).finalized@
                    &&& (s.spec_best_child(s.pan@, old(self).spec_last()) matches Some(b)
                        ==> !s.spec_summit_ok(b, old(self).ftt.0))
                },
            },
    {
        let cur = self.last_finalized();
        let candidate = match s.best_child_block(s.panorama(), cur) {
            Some(b) => b,
            None => {
                return None;
            },
        };
        if s.summit_ok(candidate, self.ftt.0) {
            self.finalized.push(candidate);
            Some(candidate)
        } else {
            None
        }
    }
}

impl State {
    /// The best child of `cur` in the block tree under panorama `p`.
    pub fn best_child_block(&self, p: &crate::panorama::Panorama, cur: Option<u64>) -> (r:
        Option<u64>)
        requires
            self.wf(),
            p@.len() == self.spec_n(),
        ensures
            r == self.spec_best_child(p@, cur),
    {
        self.best_child(p, cur)
    }

    /// Whether the unit at index `i` sees the block with hash `b`.
    fn sees_unit(&self, i: usize, b: u64) -> (r: bool)
        requires
            self.wf(),
            i < self.units.len(),
        ensures
            r == self.spec_sees_unit(i as int, b),
    {
        if self.units[i].hash == b {
            return true;
        }
        proof {
            assert(self.spec_unit_wf(i as int));
        }
        self.sees_correct(&self.units[i].swu.wire_unit.panorama, b)
    }

    /// Walks validator `v`'s swimlane down to its earliest unit that has
    /// continuously seen `b`.
    fn earliest_seeing(&self, i: usize, b: u64) -> (r: usize)
        requires
            self.wf(),
            i < self.units.len(),
        ensures
            r as int == self.spec_earliest_seeing(i as int, b),
            r <= i,
        decreases i,
    {
        proof {
            assert(self.spec_unit_wf(i as int));
        }
        let w = &self.units[i].swu.wire_unit;
        match w.panorama.get(w.creator) {
            Observation::Correct(p) => {
                proof {
                    crate::state::lemma_find_from(self.units@, p, 0);
                }
                match self.find_unit(p) {
                    Some(pj) => {
                        if pj < i && self.sees_unit(pj, b) {
                            self.earliest_seeing(pj, b)
                        } else {
                            i
                        }
                    },
                    None => i,
                }
            },
            _ => i,
        }
    }

    /// The index of validator `v`'s level-0 unit for `b`, if any.
    fn lvl0(&self, v: ValidatorIndex, b: u64) -> (r: Option<usize>)
        requires
            self.wf(),
            v.0 < self.spec_n(),
        ensures
            match r {
                Some(i) => self.spec_lvl0(v.0 as int, b) == Some(i as int) && i
                    < self.units.len(),
                None => self.spec_lvl0(v.0 as int, b) is None,
            },
    {
        match self.pan.get(v) {
            Observation::Correct(tip) => {
                proof {
                    assert(self.spec_pan_slot_wf(v.0 as int));
                    crate::state::lemma_find_from(self.units@, tip, 0);
                }
                let tj = self.find_unit(tip).unwrap();
                if self.sees_unit(tj, b) {
                    Some(self.earliest_seeing(tj, b))
                } else {
                    None
                }
            },
            _ => None,
        }
    }

    /// Whether member `v`'s latest unit sees member `w`'s level-0 unit.
    fn sees_member(&self, v: ValidatorIndex, w: ValidatorIndex, b: u64) -> (r: bool)
        requires
            self.wf(),
            v.0 < self.spec_n(),
            w.0 < self.spec_n(),
        ensures
            r == self.spec_sees_member(v.0 as int, w.0 as int, b),
    {
        let tip = match self.pan.get(v) {
            Observation::Correct(tip) => tip,
            _ => {
                return false;
            },
        };
        let l0 = match self.lvl0(w, b) {
            Some(l0) => l0,
            None => {
                return false;
            },
        };
        proof {
            assert(self.spec_pan_slot_wf(v.0 as int));
            crate::state::lemma_find_from(self.units@, tip, 0);
        }
        let tj = self.find_unit(tip).unwrap();
        self.sees_unit(tj, self.units[l0].hash)
    }

    /// One committee refinement step.
    fn refine_step(&self, b: u64, marks: &Vec<bool>) -> (r: Vec<bool>)
        requires
            self.wf(),
            marks@.len() == self.spec_n(),
        ensures
            r@ =~= self.spec_refine_step(b, marks@),
    {
        let n = self.validators.len();
        let mut out: Vec<bool> = Vec::with_capacity(n);
        let mut v: usize = 0;
        while v < n
            invariant
                self.wf(),
                marks@.len() == self.spec_n(),
                0 <= v <= n,
                n == self.spec_n(),
                out@.len() == v,
                forall|k: int|
                    0 <= k < v ==> out@[k] == self.spec_refine_step(b, marks@)[k],
            decreases n - v,
        {
            let mut stays = marks[v];
            if stays {
                let mut w: usize = 0;
                while w < n && stays
                    invariant
                        self.wf(),
                        marks@.len() == self.spec_n(),
                        0 <= w <= n,
                        n == self.spec_n(),
                        v < n,
                        marks@[v as int],
                        stays ==> forall|k: int|
                            0 <= k < w && marks@[k] ==> #[trigger] self.spec_sees_member(
                                v as int,
                                k,
                                b,
                            ),
                        !stays ==> exists|k: int|
                            0 <= k < n && marks@[k] && !(#[trigger] self.spec_sees_member(
                                v as int,
                                k,
                                b,
                            )),
                    decreases n - w,
                {
                    if marks[w] && !self.sees_member(
                        ValidatorIndex(v as u32),
                        ValidatorIndex(w as u32),
                        b,
                    ) {
                        stays = false;
                        proof {
                            assert(marks@[w as int] && !self.spec_sees_member(
                                v as int,
                                w as int,
                                b,
                            ));
                        }
                    }
                    w = w + 1;
                }
            }
            proof {
                assert(stays == self.spec_refine_step(b, marks@)[v as int]);
            }
            out.push(stays);
            v = v + 1;
        }
        out
    }

    /// The committee's weight, with overflow impossible: it never exceeds
    /// the total weight.
    pub proof fn lemma_marked_weight_bound(&self, marks: Seq<bool>, v: int)
        requires
            self.wf(),
            0 <= v <= self.spec_n(),
        ensures
            0 <= self.spec_marked_weight(marks, v) <= spec_weight_sum(
                self.validators.list@,
                v,
            ),
        decreases v,
    {
        if v > 0 {
            self.lemma_marked_weight_bound(marks, v - 1);
        }
    }

    /// Computes the marked validators' total weight.
    fn marked_weight(&self, marks: &Vec<bool>) -> (r: u64)
        requires
            self.wf(),
            marks@.len() == self.spec_n(),
        ensures
            r == self.spec_marked_weight(marks@, self.spec_n()),
    {
        let n = self.validators.len();
        let mut acc: u64 = 0;
        let mut v: usize = 0;
        while v < n
            invariant
                self.wf(),
                marks@.len() == self.spec_n(),
                0 <= v <= n,
                n == self.spec_n(),
                acc == self.spec_marked_weight(marks@, v as int),
            decreases n - v,
        {
            proof {
                self.lemma_marked_weight_bound(marks@, v + 1 as int);
                self.validators.lemma_weight_sum_monotone(v + 1 as int, n as int);
            }
            if marks[v] {
                acc = acc + self.validators.list[v].weight;
            }
            v = v + 1;
        }
        acc
    }

    /// Whether block `b` has accumulated a finalizing summit under fault
    /// tolerance `ftt`.
    pub fn summit_ok(&self, b: u64, ftt: u64) -> (r: bool)
        requires
            self.wf(),
        ensures
            r == self.spec_summit_ok(b, ftt),
    {
        let n = self.validators.len();
        let mut marks: Vec<bool> = Vec::with_capacity(n);
        let mut v: usize = 0;
        while v < n
            invariant
                self.wf(),
                0 <= v <= n,
                n == self.spec_n(),
                marks@.len() == v,
                forall|k: int| 0 <= k < v ==> marks@[k] == self.spec_committee_start(b)[k],
            decreases n - v,
        {
            marks.push(self.lvl0(ValidatorIndex(v as u32), b).is_some());
            v = v + 1;
        }
        proof {
            assert(marks@ =~= self.spec_committee_start(b));
        }
        let mut k: usize = 0;
        while k < n
            invariant
                self.wf(),
                n == self.spec_n(),
                0 <= k <= n,
                marks@.len() == n,
                self.spec_refine(b, marks@, (n + 1 - k) as nat) == self.spec_refine(
                    b,
                    self.spec_committee_start(b),
                    (n + 1) as nat,
                ),
            decreases n - k,
        {
            let next = self.refine_step(b, &marks);
            marks = next;
            k = k + 1;
        }
        let last = self.refine_step(b, &marks);
        marks = last;
        proof {
            assert(self.spec_refine(b, marks@, 0) == marks@);
        }
        let weight = self.marked_weight(&marks);
        let total = self.validators.total_weight();
        (weight as u128) * 2 > (total as u128) + (ftt as u128)
    }
}

} // verus!
