//! Panoramas: the per-validator view vector cited by every unit.  Each slot
//! records the latest unit seen from that validator, or that the validator is
//! known to have equivocated.

use vstd::prelude::*;

use crate::validators::ValidatorIndex;

verus! {

/// What one validator has seen of another: nothing, a latest unit (by its
/// content hash), or proof of equivocation.
#[derive(Clone, Copy, PartialEq, Eq, Structural, Debug)]
pub enum Observation {
    /// No unit from that creator has been seen.
    Null,
    /// The hash of the latest unit seen from that creator.
    Correct(u64),
    /// The creator is known to have equivocated.
    Faulty,
}

impl Observation {
    /// The hash of the latest seen unit, if the observation is `Correct`.
    pub fn correct(&self) -> (r: Option<u64>)
        ensures
            r == (match *self {
                Observation::Correct(h) => Some(h),
                _ => None::<u64>,
            }),
    {
        match *self {
            Observation::Correct(h) => Some(h),
            _ => None,
        }
    }

    /// Whether the observed validator is known to have equivocated.
    pub fn is_faulty(&self) -> (r: bool)
        ensures
            r == (*self is Faulty),
    {
        match *self {
            Observation::Faulty => true,
            _ => false,
        }
    }

    /// Whether a latest unit has been observed.
    pub fn is_correct(&self) -> (r: bool)
        ensures
            r == (*self is Correct),
    {
        match *self {
            Observation::Correct(_) => true,
            _ => false,
        }
    }
}

/// A view vector with one observation per validator of the era.
#[derive(Clone, PartialEq, Eq, Debug)]
pub struct Panorama {
    pub observations: Vec<Observation>,
}

impl View for Panorama {
    type V = Seq<Observation>;

    open spec fn view(&self) -> Seq<Observation> {
        self.observations@
    }
}

impl Panorama {
    /// A panorama with `n` empty observations: nothing seen from anyone.
    pub fn all_null(n: usize) -> (r: Panorama)
        ensures
            r@.len() == n,
            forall|i: int| 0 <= i < n ==> r@[i] == Observation::Null,
    {
        let mut observations: Vec<Observation> = Vec::with_capacity(n);
        let mut i: usize = 0;
        while i < n
            invariant
                0 <= i <= n,
                observations@.len() == i,
                forall|j: int| 0 <= j < i ==> observations@[j] == Observation::Null,
            decreases n - i,
        {
            observations.push(Observation::Null);
            i = i + 1;
        }
        Panorama { observations }
    }

    pub fn len(&self) -> (r: usize)
        ensures
            r == self@.len(),
    {
        self.observations.len()
    }

    /// The observation for validator `idx`.
    pub fn get(&self, idx: ValidatorIndex) -> (r: Observation)
        requires
            idx.0 < self@.len(),
        ensures
            r == self@[idx.0 as int],
    {
        self.observations[idx.0 as usize]
    }

    /// Replaces the observation for validator `idx`.
    pub fn set(&mut self, idx: ValidatorIndex, obs: Observation)
        requires
            idx.0 < old(self)@.len(),
        ensures
            final(self)@ == old(self)@.update(idx.0 as int, obs),
    {
        self.observations.set(idx.0 as usize, obs);
    }

    /// An element-wise copy of this panorama.
    pub fn duplicate(&self) -> (r: Panorama)
        ensures
            r@ == self@,
    {
        let n = self.observations.len();
        let mut observations: Vec<Observation> = Vec::with_capacity(n);
        let mut i: usize = 0;
        while i < n
            invariant
                0 <= i <= n,
                n == self@.len(),
                observations@.len() == i,
                forall|j: int| 0 <= j < i ==> observations@[j] == self@[j],
            decreases n - i,
        {
            observations.push(self.observations[i]);
            i = i + 1;
        }
        proof {
            assert(observations@ =~= self@);
        }
        Panorama { observations }
    }

    /// Whether any observation is `Correct`.
    pub open spec fn spec_has_correct(&self) -> bool {
        exists|i: int| 0 <= i < self@.len() && self@[i] is Correct
    }

    /// Whether some unit is seen from at least one correct validator.
    pub fn has_correct(&self) -> (r: bool)
        ensures
            r == self.spec_has_correct(),
    {
        let n = self.observations.len();
        let mut i: usize = 0;
        while i < n
            invariant
                0 <= i <= n,
                n == self@.len(),
                forall|j: int| 0 <= j < i ==> !(self@[j] is Correct),
            decreases n - i,
        {
            if self.observations[i].is_correct() {
                return true;
            }
            i = i + 1;
        }
        false
    }
}

} // verus!
