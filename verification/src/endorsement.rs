//! Endorsements: signed declarations that an endorser has observed a
//! specific unit.  They neutralize equivocation-based censoring: once enough
//! weight endorses a unit, it may keep being cited even though its creator
//! later proves faulty.

use vstd::prelude::*;

use crate::crypto::Signature;
use crate::validators::ValidatorIndex;

verus! {

/// A declaration that `endorser` has observed the unit with hash
/// `unit_hash`.
#[derive(Clone, Copy, PartialEq, Eq, Structural, Debug)]
pub struct Endorsement {
    pub unit_hash: u64,
    pub endorser: ValidatorIndex,
}

impl Endorsement {
    pub fn new(unit_hash: u64, endorser: ValidatorIndex) -> (r: Endorsement)
        ensures
            r.unit_hash == unit_hash,
            r.endorser == endorser,
    {
        Endorsement { unit_hash, endorser }
    }
}

/// An endorsement together with the endorser's signature over its canonical
/// hash.
#[derive(Clone, Copy, PartialEq, Eq, Structural, Debug)]
pub struct SignedEndorsement {
    pub endorsement: Endorsement,
    pub signature: Signature,
}

impl SignedEndorsement {
    pub fn new(endorsement: Endorsement, signature: Signature) -> (r: SignedEndorsement)
        ensures
            r.endorsement == endorsement,
            r.signature == signature,
    {
        SignedEndorsement { endorsement, signature }
    }
}

/// A batch of signed endorsements, aggregated by unit.
#[derive(Clone, PartialEq, Eq, Debug)]
pub struct Endorsements {
    pub endorsements: Vec<SignedEndorsement>,
}

impl View for Endorsements {
    type V = Seq<SignedEndorsement>;

    open spec fn view(&self) -> Seq<SignedEndorsement> {
        self.endorsements@
    }
}

impl Endorsements {
    pub fn new(endorsements: Vec<SignedEndorsement>) -> (r: Endorsements)
        ensures
            r@ == endorsements@,
    {
        Endorsements { endorsements }
    }
}

} // verus!
