use vstd::prelude::*;

verus! {

use vstd::arithmetic::div_mod::{
    lemma_fundamental_div_mod,
    lemma_div_pos_is_pos,
    lemma_mod_division_less_than_divisor,
    lemma_hoist_over_denominator,
};
use vstd::arithmetic::mul::lemma_mul_is_distributive_add_other_way;

/// One CHIP-8 countdown timer.
///
/// The counter decays at a fixed real-time rate no matter how many
/// instructions execute per second. Elapsed time is fed in through
/// `advance` in abstract units; the accumulator collects those units, and
/// the counter loses one for every full tick period the accumulator climbs
/// past, saturating at zero. `period` says how many units make one 1/60 s
/// tick, so the caller's choice of unit fixes the real-time meaning.
pub struct Timer {
    /// Current counter value, the part a running program observes.
    pub value: u8,
    /// Elapsed units not yet converted into decrements.
    pub accumulator: u32,
    /// Units per 1/60 s tick.
    pub period: u32,
}

impl Timer {
    /// Internal consistency: a positive period, and an accumulator that
    /// never holds more than one full period.
    pub open spec fn wf(self) -> bool {
        &&& self.period >= 1
        &&& self.accumulator <= self.period
    }

    /// How many decrements advancing by `units` produces: one for each time
    /// the accumulator climbs strictly past the period.
    pub open spec fn spec_decrements(self, units: u32) -> int {
        let total = self.accumulator + units;
        if total == 0 {
            0
        } else {
            (total - 1) / (self.period as int)
        }
    }

    /// The timer after `units` of elapsed time: the accumulator is reduced
    /// to at most one period, and the counter loses one per surplus period,
    /// saturating at zero.
    pub open spec fn spec_advance(self, units: u32) -> Timer {
        let dec = self.spec_decrements(units);
        Timer {
            value: if dec >= self.value { 0u8 } else { (self.value - dec) as u8 },
            accumulator: ((self.accumulator + units) - dec * (self.period as int)) as u32,
            period: self.period,
        }
    }

    /// A fresh timer at zero with the given tick period.
    pub fn new(period: u32) -> (t: Timer)
        requires
            period >= 1,
        ensures
            t == (Timer { value: 0u8, accumulator: 0u32, period: period }),
            t.wf(),
    {
        Timer { value: 0, accumulator: 0, period }
    }

    /// Feeds `units` of elapsed time into the timer.
    pub fn advance(&mut self, units: u32)
        requires
            old(self).wf(),
        ensures
            *final(self) == old(self).spec_advance(units),
            final(self).wf(),
    {
        let ghost t0 = *self;
        let period64: u64 = self.period as u64;
        let total: u64 = self.accumulator as u64 + units as u64;
        if total > period64 {
            let dec: u64 = (total - 1) / period64;
            let rem: u64 = (total - 1) % period64;
            proof {
                lemma_fundamental_div_mod(total as int - 1, period64 as int);
                lemma_mod_division_less_than_divisor(total as int - 1, period64 as int);
                lemma_div_pos_is_pos(total as int - 1, period64 as int);
                vstd::arithmetic::mul::lemma_mul_is_commutative(dec as int, period64 as int);
                assert(t0.spec_decrements(units) == dec);
                assert(total - dec * (period64 as int) == rem + 1);
            }
            self.accumulator = (rem + 1) as u32;
            if dec >= self.value as u64 {
                self.value = 0;
            } else {
                self.value = self.value - (dec as u8);
            }
        } else {
            assert(t0.spec_decrements(units) == 0) by {
                if total != 0 {
                    vstd::arithmetic::div_mod::lemma_basic_div(
                        total as int - 1,
                        period64 as int,
                    );
                }
            }
            self.accumulator = total as u32;
        }
    }
}

/// Advancing a timer by two spans of time in turn leaves it exactly as
/// advancing it once by their sum: the number of decrements depends only on
/// the total elapsed time, never on how the caller slices that time into
/// calls.
pub proof fn lemma_advance_additive(t: Timer, a: u32, b: u32)
    requires
        t.wf(),
        a + b <= u32::MAX,
    ensures
        t.spec_advance(a).spec_advance(b) == t.spec_advance((a + b) as u32),
{
    let p = t.period as int;
    let v = t.value as int;
    let x = t.accumulator + a;
    let y = b as int;
    let t1 = t.spec_advance(a);
    if x == 0 {
        assert(t1 == t);
    } else {
        let dec1 = (x - 1) / p;
        let r = (x - 1) % p;
        lemma_fundamental_div_mod(x - 1, p);
        lemma_mod_division_less_than_divisor(x - 1, p);
        lemma_div_pos_is_pos(x - 1, p);
        assert(x - dec1 * p == r + 1) by {
            vstd::arithmetic::mul::lemma_mul_is_commutative(dec1, p);
        }
        assert(t1.accumulator == r + 1);
        let dec2 = t1.spec_decrements(b);
        assert(dec2 == (r + y) / p);
        lemma_div_pos_is_pos(r + y, p);
        let dect = t.spec_decrements((a + b) as u32);
        assert(dect == (x + y - 1) / p);
        assert(dec1 + dec2 == dect) by {
            lemma_hoist_over_denominator(r + y, dec1, p as nat);
            assert(r + y + dec1 * p == x + y - 1);
        }
        assert((dec1 + dec2) * p == dec1 * p + dec2 * p) by {
            lemma_mul_is_distributive_add_other_way(p, dec1, dec2);
        }
        let t2 = t1.spec_advance(b);
        let ts = t.spec_advance((a + b) as u32);
        assert(t2.accumulator == ts.accumulator);
        assert(t2.value == ts.value);
        assert(t2.period == ts.period);
        assert(t2 == ts);
    }
}

} // verus!
