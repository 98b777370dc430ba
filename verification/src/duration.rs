//! Elapsed wall-clock time with exact integer arithmetic.
//!
//! A trial's elapsed time is kept as whole seconds plus a sub-second
//! remainder in nanoseconds. Every operation is specified against the
//! mathematical value of the duration: its total length in nanoseconds.

use vstd::prelude::*;
use vstd::arithmetic::div_mod::{
    lemma_fundamental_div_mod, lemma_fundamental_div_mod_converse, lemma_mod_bound,
};

verus! {

/// Nanoseconds in one second.
pub const NANOS_PER_SEC: u32 = 1_000_000_000;

/// An elapsed wall-clock time: whole seconds plus a sub-second remainder.
#[derive(Clone, Copy, PartialEq, Eq, Structural, Debug)]
pub struct TrialDuration {
    pub secs: u64,
    pub nanos: u32,
}

/// The largest total-nanosecond value a `TrialDuration` can carry.
pub open spec fn max_total_nanos() -> int {
    u64::MAX * (NANOS_PER_SEC as int) + (NANOS_PER_SEC - 1)
}

impl View for TrialDuration {
    type V = int;

    /// The mathematical value of the duration: its length in nanoseconds.
    open spec fn view(&self) -> int {
        self.secs * (NANOS_PER_SEC as int) + self.nanos
    }
}

impl TrialDuration {
    /// The sub-second remainder is a remainder: strictly below one second.
    pub open spec fn wf(self) -> bool {
        self.nanos < NANOS_PER_SEC
    }

    /// Builds a duration from whole seconds and a sub-second remainder.
    pub fn new(secs: u64, nanos: u32) -> (d: TrialDuration)
        requires
            nanos < NANOS_PER_SEC,
        ensures
            d.wf(),
            d@ == secs * (NANOS_PER_SEC as int) + nanos,
    {
        TrialDuration { secs, nanos }
    }

    /// Builds a duration of exactly `total` nanoseconds.
    pub fn from_nanos(total: u64) -> (d: TrialDuration)
        ensures
            d.wf(),
            d@ == total,
    {
        let nps: u64 = NANOS_PER_SEC as u64;
        let secs: u64 = total / nps;
        let nanos: u64 = total % nps;
        proof {
            lemma_fundamental_div_mod(total as int, nps as int);
            lemma_mod_bound(total as int, nps as int);
        }
        TrialDuration { secs, nanos: nanos as u32 }
    }

    /// The whole-second part of the duration.
    pub fn as_secs(&self) -> (r: u64)
        requires
            self.wf(),
        ensures
            r == self@ / (NANOS_PER_SEC as int),
    {
        proof {
            lemma_fundamental_div_mod_converse(
                self@,
                NANOS_PER_SEC as int,
                self.secs as int,
                self.nanos as int,
            );
        }
        self.secs
    }

    /// The sub-second remainder of the duration, in nanoseconds.
    pub fn subsec_nanos(&self) -> (r: u32)
        requires
            self.wf(),
        ensures
            r == self@ % (NANOS_PER_SEC as int),
    {
        proof {
            lemma_fundamental_div_mod_converse(
                self@,
                NANOS_PER_SEC as int,
                self.secs as int,
                self.nanos as int,
            );
        }
        self.nanos
    }

    /// The sub-second remainder of the duration, in whole milliseconds.
    pub fn subsec_millis(&self) -> (r: u32)
        requires
            self.wf(),
        ensures
            r == (self@ % (NANOS_PER_SEC as int)) / 1_000_000,
    {
        proof {
            lemma_fundamental_div_mod_converse(
                self@,
                NANOS_PER_SEC as int,
                self.secs as int,
                self.nanos as int,
            );
        }
        self.nanos / 1_000_000
    }

    /// Adds two durations, reporting an overflowing sum as `None`.
    pub fn checked_add(self, other: TrialDuration) -> (r: Option<TrialDuration>)
        requires
            self.wf(),
            other.wf(),
        ensures
            self@ + other@ <= max_total_nanos() ==> (r matches Some(d) && d.wf() && d@ == self@
                + other@),
            self@ + other@ > max_total_nanos() ==> r is None,
    {
        let nanos_sum: u32 = self.nanos + other.nanos;
        let (extra_sec, nanos): (u64, u32) = if nanos_sum >= NANOS_PER_SEC {
            (1, nanos_sum - NANOS_PER_SEC)
        } else {
            (0, nanos_sum)
        };
        match self.secs.checked_add(other.secs) {
            Option::Some(s) => match s.checked_add(extra_sec) {
                Option::Some(total_secs) => Option::Some(TrialDuration { secs: total_secs, nanos }),
                Option::None => Option::None,
            },
            Option::None => Option::None,
        }
    }

    /// Divides the duration evenly into `parts` parts, rounding the
    /// total-nanosecond value down. Dividing by zero is a caller error,
    /// not a runtime condition, so it is ruled out up front.
    pub fn div_by(self, parts: u32) -> (r: TrialDuration)
        requires
            self.wf(),
            parts >= 1,
        ensures
            r.wf(),
            r@ == self@ / (parts as int),
    {
        let p: u64 = parts as u64;
        let q_secs: u64 = self.secs / p;
        let carry: u64 = self.secs % p;
        assert((carry as int) * (NANOS_PER_SEC as int) + (self.nanos as int) <= u64::MAX as int)
            by (nonlinear_arith)
            requires
                carry < 0x1_0000_0000u64,
                self.nanos < NANOS_PER_SEC,
        ;
        let rem_nanos: u64 = carry * (NANOS_PER_SEC as u64) + (self.nanos as u64);
        let extra: u64 = rem_nanos / p;
        proof {
            let nps = NANOS_PER_SEC as int;
            let p_i = parts as int;
            let r2 = (rem_nanos as int) % p_i;
            lemma_fundamental_div_mod(self.secs as int, p_i);
            lemma_fundamental_div_mod(rem_nanos as int, p_i);
            lemma_mod_bound(self.secs as int, p_i);
            lemma_mod_bound(rem_nanos as int, p_i);
            assert(self@ == ((q_secs as int) * nps + (extra as int)) * p_i + r2)
                by (nonlinear_arith)
                requires
                    self@ == (self.secs as int) * nps + (self.nanos as int),
                    self.secs as int == p_i * (q_secs as int) + (carry as int),
                    rem_nanos as int == (carry as int) * nps + (self.nanos as int),
                    rem_nanos as int == p_i * (extra as int) + r2,
            ;
            lemma_fundamental_div_mod_converse(
                self@,
                p_i,
                (q_secs as int) * nps + (extra as int),
                r2,
            );
            assert(extra < nps) by (nonlinear_arith)
                requires
                    p_i >= 1,
                    nps >= 1,
                    0 <= r2,
                    rem_nanos as int == p_i * (extra as int) + r2,
                    rem_nanos as int == (carry as int) * nps + (self.nanos as int),
                    carry as int <= p_i - 1,
                    self.nanos as int <= nps - 1,
            ;
        }
        TrialDuration { secs: q_secs, nanos: extra as u32 }
    }
}

/// A well-formed duration is determined by its total-nanosecond value:
/// equal values mean equal seconds and equal sub-second remainders.
pub proof fn lemma_value_determines_duration(a: TrialDuration, b: TrialDuration)
    requires
        a.wf(),
        b.wf(),
        a@ == b@,
    ensures
        a == b,
{
    lemma_fundamental_div_mod_converse(a@, NANOS_PER_SEC as int, a.secs as int, a.nanos as int);
    lemma_fundamental_div_mod_converse(b@, NANOS_PER_SEC as int, b.secs as int, b.nanos as int);
}

} // verus!
