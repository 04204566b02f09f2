//! The era's validator set: dense indices, public keys and integer weights.
//! The set is immutable for the lifetime of a state instance.

use vstd::prelude::*;

use crate::crypto::PublicKey;

verus! {

/// A dense index into the era's validator set.
#[derive(Clone, Copy, PartialEq, Eq, Structural, Debug, Hash)]
pub struct ValidatorIndex(pub u32);

/// A validator's voting weight.
#[derive(Clone, Copy, PartialEq, Eq, Structural, Debug, Hash)]
pub struct Weight(pub u64);

/// One validator: a public key and a weight.
#[derive(Clone, Copy, PartialEq, Eq, Structural, Debug)]
pub struct Validator {
    pub public_key: PublicKey,
    pub weight: u64,
}

/// The era's validator set.
#[derive(Clone, Debug)]
pub struct Validators {
    pub list: Vec<Validator>,
}

/// The sum of the weights of validators `0 .. i`.
pub open spec fn spec_weight_sum(list: Seq<Validator>, i: int) -> int
    decreases i,
{
    if i <= 0 {
        0
    } else {
        spec_weight_sum(list, i - 1) + list[i - 1].weight
    }
}

impl Validators {
    /// A validator set is well formed when it is non-empty, small enough to
    /// index with `u32`, and its total weight is positive and fits in `u64`.
    pub open spec fn wf(&self) -> bool {
        &&& 0 < self.list.len() < 0x1_0000_0000
        &&& 0 < spec_weight_sum(self.list@, self.list.len() as int) <= u64::MAX
    }

    /// The total weight of the validator set.
    pub open spec fn spec_total_weight(&self) -> int {
        spec_weight_sum(self.list@, self.list.len() as int)
    }

    pub open spec fn spec_len(&self) -> nat {
        self.list.len() as nat
    }

    /// Builds the validator set from a list of validators.
    pub fn new(list: Vec<Validator>) -> (r: Validators)
        ensures
            r.list == list,
    {
        Validators { list }
    }

    /// The number of validators.
    pub fn len(&self) -> (r: usize)
        ensures
            r == self.spec_len(),
    {
        self.list.len()
    }

    /// The validator at index `idx`.
    pub fn get(&self, idx: ValidatorIndex) -> (r: Validator)
        requires
            idx.0 < self.spec_len(),
        ensures
            r == self.list@[idx.0 as int],
    {
        self.list[idx.0 as usize]
    }

    /// Partial weight sums never exceed the total.
    pub proof fn lemma_weight_sum_monotone(&self, i: int, j: int)
        requires
            0 <= i <= j <= self.list.len(),
        ensures
            spec_weight_sum(self.list@, i) <= spec_weight_sum(self.list@, j),
        decreases j - i,
    {
        if i < j {
            self.lemma_weight_sum_monotone(i, j - 1);
        }
    }

    /// The total weight of the validator set.
    pub fn total_weight(&self) -> (r: u64)
        requires
            self.wf(),
        ensures
            r == self.spec_total_weight(),
    {
        let n = self.list.len();
        let mut sum: u64 = 0;
        let mut i: usize = 0;
        while i < n
            invariant
                0 <= i <= n,
                n == self.list.len(),
                self.wf(),
                sum == spec_weight_sum(self.list@, i as int),
            decreases n - i,
        {
            proof {
                self.lemma_weight_sum_monotone(i + 1 as int, n as int);
            }
            sum = sum + self.list[i].weight;
            i = i + 1;
        }
        sum
    }
}

} // verus!
