//! Reduction of a batch of timed trials to one outcome.
//!
//! A batch runs one benchmarked operation `count` times and records, for
//! each trial, either its elapsed time or its failure. The reduction
//! surfaces the first recorded failure; when every trial succeeded it
//! reports the arithmetic mean of the elapsed times.

use vstd::prelude::*;
use vstd::arithmetic::div_mod::{lemma_div_basics, lemma_div_multiples_vanish};
use crate::duration::{max_total_nanos, TrialDuration};

verus! {

/// The failures a benchmarked trial can report.
#[derive(Clone, Copy, PartialEq, Eq, Structural, Debug)]
pub enum TrialError {
    /// The file under test could not be opened.
    OpenFailed,
    /// A read call failed at the I/O layer.
    ReadFailed,
    /// The bytes read over a whole trial did not match the expected file length.
    SizeMismatch,
}

/// The nanoseconds a recorded trial contributes to the batch total:
/// its elapsed time when it succeeded, nothing when it failed.
pub open spec fn ok_nanos(r: Result<TrialDuration, TrialError>) -> int {
    match r {
        Result::Ok(d) => d@,
        Result::Err(_) => 0,
    }
}

/// The total nanoseconds of the successful trials of a batch.
pub open spec fn sum_nanos(s: Seq<Result<TrialDuration, TrialError>>) -> int
    decreases s.len(),
{
    if s.len() == 0 {
        0
    } else {
        sum_nanos(s.drop_last()) + ok_nanos(s.last())
    }
}

/// The first failure a batch recorded, in the order the trial results
/// were aggregated, if any trial failed.
pub open spec fn first_error(s: Seq<Result<TrialDuration, TrialError>>) -> Option<TrialError>
    decreases s.len(),
{
    if s.len() == 0 {
        Option::None
    } else {
        match s.first() {
            Result::Err(e) => Option::Some(e),
            Result::Ok(_) => first_error(s.drop_first()),
        }
    }
}

/// What a batch of recorded trial results reduces to: the first recorded
/// failure, or else the mean elapsed nanoseconds over all trials.
pub open spec fn batch_spec(s: Seq<Result<TrialDuration, TrialError>>) -> Result<
    int,
    TrialError,
> {
    match first_error(s) {
        Option::Some(e) => Result::Err(e),
        Option::None => Result::Ok(sum_nanos(s) / (s.len() as int)),
    }
}

proof fn lemma_first_error_skip(s: Seq<Result<TrialDuration, TrialError>>, i: int)
    requires
        0 <= i <= s.len(),
        forall|j: int| 0 <= j < i ==> (#[trigger] s[j]) is Ok,
    ensures
        first_error(s) == first_error(s.skip(i)),
    decreases i,
{
    if i == 0 {
        assert(s.skip(0) =~= s);
    } else {
        lemma_first_error_skip(s, i - 1);
        assert(s.skip(i - 1).first() == s[i - 1]);
        assert(s.skip(i - 1).drop_first() =~= s.skip(i));
    }
}

proof fn lemma_sum_take_step(s: Seq<Result<TrialDuration, TrialError>>, i: int)
    requires
        0 <= i < s.len(),
    ensures
        sum_nanos(s.take(i + 1)) == sum_nanos(s.take(i)) + ok_nanos(s[i]),
{
    assert(s.take(i + 1).drop_last() =~= s.take(i));
    assert(s.take(i + 1).last() == s[i]);
}

proof fn lemma_sum_prefix_le(s: Seq<Result<TrialDuration, TrialError>>, i: int)
    requires
        0 <= i <= s.len(),
    ensures
        sum_nanos(s.take(i)) <= sum_nanos(s),
    decreases s.len() - i,
{
    if i == s.len() {
        assert(s.take(i) =~= s);
    } else {
        lemma_sum_take_step(s, i);
        lemma_sum_prefix_le(s, i + 1);
    }
}

/// Reduces a batch of recorded trial results: the first recorded failure
/// if any trial failed, else the arithmetic mean of the elapsed times.
///
/// A batch of zero trials has no mean and is a caller error, so the
/// reduction demands at least one result; the bound on the batch total
/// only keeps the running sum within the duration type.
pub fn batch_outcome(results: &Vec<Result<TrialDuration, TrialError>>) -> (r: Result<
    TrialDuration,
    TrialError,
>)
    requires
        results@.len() >= 1,
        results@.len() <= u32::MAX,
        forall|j: int|
            0 <= j < results@.len() ==> ((#[trigger] results@[j]) matches Result::Ok(d)
                ==> d.wf()),
        first_error(results@) is None ==> sum_nanos(results@) <= max_total_nanos(),
    ensures
        match batch_spec(results@) {
            Result::Ok(mean) => r matches Result::Ok(m) && m.wf() && m@ == mean,
            Result::Err(e) => r == Result::<TrialDuration, TrialError>::Err(e),
        },
{
    let n: usize = results.len();
    let mut i: usize = 0;
    while i < n
        invariant
            n == results@.len(),
            0 <= i <= n,
            forall|j: int| 0 <= j < i ==> (#[trigger] results@[j]) is Ok,
        decreases n - i,
    {
        match results[i] {
            Result::Err(e) => {
                proof {
                    lemma_first_error_skip(results@, i as int);
                    assert(results@.skip(i as int).first() == results@[i as int]);
                }
                return Result::Err(e);
            },
            Result::Ok(_) => {},
        }
        i += 1;
    }
    proof {
        lemma_first_error_skip(results@, n as int);
        assert(results@.skip(n as int).len() == 0);
    }
    let mut acc = TrialDuration { secs: 0, nanos: 0 };
    let mut k: usize = 0;
    while k < n
        invariant
            n == results@.len(),
            1 <= n <= u32::MAX,
            0 <= k <= n,
            forall|j: int| 0 <= j < n ==> (#[trigger] results@[j]) is Ok,
            forall|j: int|
                0 <= j < n ==> ((#[trigger] results@[j]) matches Result::Ok(d) ==> d.wf()),
            sum_nanos(results@) <= max_total_nanos(),
            acc.wf(),
            acc@ == sum_nanos(results@.take(k as int)),
        decreases n - k,
    {
        let d = match results[k] {
            Result::Ok(d) => d,
            Result::Err(_) => {
                proof {
                    assert(false);
                }
                TrialDuration { secs: 0, nanos: 0 }
            },
        };
        proof {
            lemma_sum_take_step(results@, k as int);
            lemma_sum_prefix_le(results@, k as int + 1);
        }
        acc = match acc.checked_add(d) {
            Option::Some(a) => a,
            Option::None => {
                proof {
                    assert(false);
                }
                acc
            },
        };
        k += 1;
    }
    proof {
        assert(results@.take(n as int) =~= results@);
    }
    let count: u32 = n as u32;
    let mean = acc.div_by(count);
    Result::Ok(mean)
}

/// Law: a batch in which every trial succeeds with one and the same
/// elapsed time has exactly that elapsed time as its mean, whatever the
/// trial count.
pub proof fn lemma_mean_of_constant(s: Seq<Result<TrialDuration, TrialError>>, d: TrialDuration)
    requires
        s.len() >= 1,
        d.wf(),
        forall|j: int| 0 <= j < s.len() ==> s[j] == Result::<TrialDuration, TrialError>::Ok(d),
    ensures
        batch_spec(s) == Result::<int, TrialError>::Ok(d@),
{
    assert(forall|j: int| 0 <= j < s.len() ==> (#[trigger] s[j]) is Ok);
    lemma_first_error_skip(s, s.len() as int);
    assert(s.skip(s.len() as int).len() == 0);
    lemma_sum_constant(s, d);
    lemma_div_multiples_vanish(d@, s.len() as int);
}

proof fn lemma_sum_constant(s: Seq<Result<TrialDuration, TrialError>>, d: TrialDuration)
    requires
        forall|j: int| 0 <= j < s.len() ==> s[j] == Result::<TrialDuration, TrialError>::Ok(d),
    ensures
        sum_nanos(s) == (s.len() as int) * d@,
    decreases s.len(),
{
    if s.len() == 0 {
    } else {
        assert(forall|j: int|
            0 <= j < s.drop_last().len() ==> s.drop_last()[j] == Result::<
                TrialDuration,
                TrialError,
            >::Ok(d));
        lemma_sum_constant(s.drop_last(), d);
        assert(s.last() == s[s.len() - 1]);
        assert((s.len() - 1) * d@ + d@ == (s.len() as int) * d@) by (nonlinear_arith);
    }
}

/// Law: a batch in which exactly one trial fails reduces to that trial's
/// failure, never to a partial mean.
pub proof fn lemma_one_failure_fails_batch(
    s: Seq<Result<TrialDuration, TrialError>>,
    i: int,
    e: TrialError,
)
    requires
        0 <= i < s.len(),
        s[i] == Result::<TrialDuration, TrialError>::Err(e),
        forall|j: int| 0 <= j < s.len() && j != i ==> (#[trigger] s[j]) is Ok,
    ensures
        batch_spec(s) == Result::<int, TrialError>::Err(e),
{
    lemma_first_error_skip(s, i);
    assert(s.skip(i).first() == s[i]);
}

/// Law: the reduction of a batch is a pure function of the recorded trial
/// results alone. The runner keeps no state between batches, so running
/// the same always-succeeding operation twice with the same count gives
/// two independent batches that reduce the same way.
pub proof fn lemma_batch_repeatable(
    s1: Seq<Result<TrialDuration, TrialError>>,
    s2: Seq<Result<TrialDuration, TrialError>>,
)
    requires
        s1 == s2,
    ensures
        batch_spec(s1) == batch_spec(s2),
{
}

/// Law: a batch of one trial reduces to exactly what running and timing
/// the operation once yields: the single elapsed time, or the single
/// failure.
pub proof fn lemma_single_trial(r: Result<TrialDuration, TrialError>)
    ensures
        batch_spec(seq![r]) == match r {
            Result::Ok(d) => Result::<int, TrialError>::Ok(d@),
            Result::Err(e) => Result::<int, TrialError>::Err(e),
        },
{
    let s = seq![r];
    assert(s.first() == r);
    match r {
        Result::Ok(d) => {
            assert(s.drop_first().len() == 0);
            assert(first_error(s.drop_first()) is None);
            assert(first_error(s) is None);
            let s0 = s.drop_last();
            assert(s0.len() == 0);
            assert(sum_nanos(s0) == 0);
            assert(s.last() == r);
            assert(sum_nanos(s) == d@);
            lemma_div_basics(d@);
        },
        Result::Err(_) => {},
    }
}

} // verus!
