//! Evidence of equivocation: two conflicting signed units by one creator.

use vstd::prelude::*;

use crate::codec::{spec_unit_hash, SignedUnitModel};
use crate::crypto::{spec_sign, PublicKey};
use crate::unit::SignedWireUnit;
use crate::validators::ValidatorIndex;

verus! {

/// Two conflicting signed units from one creator: the same sequence number,
/// different hashes, both signatures valid.  Its presence flips that
/// creator's panorama slot to `Faulty` globally.
#[derive(Clone, PartialEq, Eq, Debug)]
pub struct Evidence {
    pub unit1: SignedWireUnit,
    pub unit2: SignedWireUnit,
}

/// The mathematical content of an [`Evidence`].
#[verifier::ext_equal]
pub struct EvidenceModel {
    pub unit1: SignedUnitModel,
    pub unit2: SignedUnitModel,
}

impl View for Evidence {
    type V = EvidenceModel;

    open spec fn view(&self) -> EvidenceModel {
        EvidenceModel { unit1: self.unit1@, unit2: self.unit2@ }
    }
}

/// What makes a pair of signed units a proof that the creator equivocated:
/// one creator, one instance, one sequence number, two different units, each
/// carrying a valid signature under the creator's public key.
pub open spec fn spec_evidence_valid(ev: EvidenceModel, pk: PublicKey) -> bool {
    &&& ev.unit1.unit.creator == ev.unit2.unit.creator
    &&& ev.unit1.unit.instance_id == ev.unit2.unit.instance_id
    &&& ev.unit1.unit.seq_number == ev.unit2.unit.seq_number
    &&& spec_unit_hash(ev.unit1.unit) != spec_unit_hash(ev.unit2.unit)
    &&& ev.unit1.sig == spec_sign(pk.key, spec_unit_hash(ev.unit1.unit))
    &&& ev.unit2.sig == spec_sign(pk.key, spec_unit_hash(ev.unit2.unit))
}

impl Evidence {
    pub fn new(unit1: SignedWireUnit, unit2: SignedWireUnit) -> (r: Evidence)
        ensures
            r.unit1 == unit1,
            r.unit2 == unit2,
    {
        Evidence { unit1, unit2 }
    }

    /// An element-wise copy of this evidence.
    pub fn duplicate(&self) -> (r: Evidence)
        ensures
            r@ == self@,
    {
        Evidence { unit1: self.unit1.duplicate(), unit2: self.unit2.duplicate() }
    }

    /// The validator the evidence incriminates.
    pub fn perpetrator(&self) -> (r: ValidatorIndex)
        ensures
            r == self.unit1.wire_unit.creator,
    {
        self.unit1.wire_unit.creator
    }
}

} // verus!
