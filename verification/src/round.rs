//! Round arithmetic: a round exponent `e` gives rounds of length `1 << e`
//! milliseconds, and every timestamp lies in exactly one round.

use vstd::prelude::*;

use crate::{TimeDiff, Timestamp};

verus! {

/// Round exponents are kept below 64 so that `1 << e` fits in a `u64`.
pub open spec fn valid_round_exp(e: u8) -> bool {
    e < 64
}

/// The length in milliseconds of a round with exponent `e`.
pub open spec fn spec_round_len(e: u8) -> u64
    recommends
        valid_round_exp(e),
{
    (1u64 << e) as u64
}

/// The identifier of the round containing `t`: the greatest multiple of the
/// round length that is at most `t`.
pub open spec fn spec_round_id(t: u64, e: u8) -> u64
    recommends
        valid_round_exp(e),
{
    (t - t % spec_round_len(e)) as u64
}

/// The offset into a round after which the witness unit is due: two thirds
/// of the round length, rounded down.
pub open spec fn spec_witness_offset(r_len: u64) -> u64 {
    ((r_len * 2) / 3) as u64
}

proof fn lemma_round_len_positive(e: u8)
    requires
        valid_round_exp(e),
    ensures
        spec_round_len(e) >= 1,
        spec_round_len(e) <= 0x8000_0000_0000_0000,
{
    assert(1u64 << e >= 1 && 1u64 << e <= 0x8000_0000_0000_0000) by (bit_vector)
        requires
            e < 64,
    ;
}

/// The length of a round with exponent `e`, as a duration.
pub fn round_len(e: u8) -> (r: TimeDiff)
    requires
        valid_round_exp(e),
    ensures
        r.millis == spec_round_len(e),
        1 <= r.millis <= 0x8000_0000_0000_0000,
{
    proof {
        lemma_round_len_positive(e);
    }
    TimeDiff { millis: 1u64 << e }
}

/// The id (start time) of the round with exponent `e` containing `t`.
pub fn round_id(t: Timestamp, e: u8) -> (r: Timestamp)
    requires
        valid_round_exp(e),
    ensures
        r.millis == spec_round_id(t.millis, e),
        r.millis <= t.millis,
        t.millis - r.millis < spec_round_len(e),
        r.millis % spec_round_len(e) == 0,
    {
    let tm: u64 = t.millis;
    let len: u64 = round_len(e).millis;
    let m: u64 = tm % len;
    proof {
        let l = len as int;
        let x = tm as int;
        vstd::arithmetic::div_mod::lemma_fundamental_div_mod(x, l);
        vstd::arithmetic::div_mod::lemma_div_pos_is_pos(x, l);
        vstd::arithmetic::mul::lemma_mul_nonnegative(l, x / l);
        vstd::arithmetic::div_mod::lemma_mod_multiples_basic(x / l, l);
    }
    Timestamp { millis: tm - m }
}

/// The time, counted from the start of a round of length `r_len`, at which
/// the witness unit for that round is due.
pub fn witness_offset_of(r_len: TimeDiff) -> (r: TimeDiff)
    requires
        r_len.millis <= 0x8000_0000_0000_0000,
    ensures
        r.millis == spec_witness_offset(r_len.millis),
        r.millis <= r_len.millis,
    {
    let wide: u128 = r_len.millis as u128 * 2 / 3;
    TimeDiff { millis: wide as u64 }
}

} // verus!
