//! The fundamental protocol message: a unit, with the panorama it cites, and
//! its signed form.

use vstd::prelude::*;

use crate::Timestamp;
use crate::crypto::Signature;
use crate::panorama::Panorama;
use crate::validators::ValidatorIndex;

verus! {

/// The content of a unit, as it is serialized and hashed: everything except
/// the signature.
///
/// `value` is present only on a proposal unit: the first unit of a round by
/// that round's leader.  `endorsed` lists the hashes of units this unit
/// declares as endorsed.
#[derive(Clone, PartialEq, Eq, Debug)]
pub struct WireUnit {
    pub panorama: Panorama,
    pub creator: ValidatorIndex,
    pub instance_id: u64,
    pub value: Option<u64>,
    pub seq_number: u64,
    pub timestamp: Timestamp,
    pub round_exp: u8,
    pub endorsed: Vec<u64>,
}

impl WireUnit {
    /// The hash of the unit this unit cites as its own predecessor, if any.
    pub open spec fn spec_previous(&self) -> Option<u64> {
        if self.creator.0 < self.panorama@.len() {
            match self.panorama@[self.creator.0 as int] {
                crate::panorama::Observation::Correct(h) => Some(h),
                _ => None,
            }
        } else {
            None
        }
    }

    /// The hash of the creator's preceding unit cited by this unit, if any.
    pub fn previous(&self) -> (r: Option<u64>)
        requires
            self.creator.0 < self.panorama@.len(),
        ensures
            r == self.spec_previous(),
    {
        self.panorama.get(self.creator).correct()
    }
}

impl WireUnit {
    /// An element-wise copy of this unit's content.
    pub fn duplicate(&self) -> (r: WireUnit)
        ensures
            r@ == self@,
            r.panorama@ == self.panorama@,
            r.creator == self.creator,
            r.instance_id == self.instance_id,
            r.value == self.value,
            r.seq_number == self.seq_number,
            r.timestamp == self.timestamp,
            r.round_exp == self.round_exp,
            r.endorsed@ == self.endorsed@,
    {
        let n = self.endorsed.len();
        let mut endorsed: Vec<u64> = Vec::with_capacity(n);
        let mut i: usize = 0;
        while i < n
            invariant
                0 <= i <= n,
                n == self.endorsed@.len(),
                endorsed@.len() == i,
                forall|j: int| 0 <= j < i ==> endorsed@[j] == self.endorsed@[j],
            decreases n - i,
        {
            endorsed.push(self.endorsed[i]);
            i = i + 1;
        }
        proof {
            assert(endorsed@ =~= self.endorsed@);
        }
        WireUnit {
            panorama: self.panorama.duplicate(),
            creator: self.creator,
            instance_id: self.instance_id,
            value: match self.value {
                Some(v) => Some(v),
                None => None,
            },
            seq_number: self.seq_number,
            timestamp: self.timestamp,
            round_exp: self.round_exp,
            endorsed,
        }
    }
}

/// A unit together with its creator's signature over the unit's canonical
/// hash.
#[derive(Clone, PartialEq, Eq, Debug)]
pub struct SignedWireUnit {
    pub wire_unit: WireUnit,
    pub signature: Signature,
}

impl SignedWireUnit {
    /// An element-wise copy of this signed unit.
    pub fn duplicate(&self) -> (r: SignedWireUnit)
        ensures
            r@ == self@,
            r.wire_unit@ == self.wire_unit@,
            r.signature == self.signature,
    {
        SignedWireUnit { wire_unit: self.wire_unit.duplicate(), signature: self.signature }
    }
}

} // verus!
