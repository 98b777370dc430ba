//! Bookkeeping of one buffered file-read trial.
//!
//! A trial opens the file under test and requests up to a buffer's worth
//! of bytes at a time until a zero-byte read signals end-of-file. The
//! trial only counts the bytes it reads; at end-of-file the count must
//! equal the expected file length, as a sanity check on the benchmark's
//! input. The asynchronous facility performing the reads lives outside
//! the library; it hands each read's byte count (or failure) to
//! [`apply_read`], which decides how the trial proceeds.

use vstd::prelude::*;
use crate::runner::TrialError;

verus! {

/// The length, in bytes, the file under test is expected to have.
pub const EXPECTED_FILE_LEN: u64 = 256 * 1024;

/// The length, in bytes, of the intermediate read buffer. This is
/// relatively small on purpose: the buffered readers of the runtimes
/// under comparison default to 8192 bytes.
pub const READ_CHUNK_LEN: usize = 2048;

/// How a file-read trial proceeds after one read call.
#[derive(Clone, Copy, PartialEq, Eq, Structural, Debug)]
pub enum ReadProgress {
    /// More bytes may follow; `total` bytes have been read so far.
    More { total: u64 },
    /// End-of-file was reached and the byte count matched.
    Done,
}

/// Advances a file-read trial by one read call.
///
/// `total` is the byte count so far, `expected` the length the file must
/// have, and `event` what the read call produced: a byte count, or the
/// failure the caller recorded for it. A failure is propagated untouched.
/// A zero-byte read is end-of-file: the trial is done if the byte count
/// matches, and has failed the sanity check otherwise. A count that
/// carries the total past `expected` can never match it at end-of-file
/// (the total only grows), so the mismatch is reported at once.
pub fn apply_read(total: u64, expected: u64, event: Result<u64, TrialError>) -> (r: Result<
    ReadProgress,
    TrialError,
>)
    requires
        total <= expected,
    ensures
        event matches Result::Err(e) ==> r == Result::<ReadProgress, TrialError>::Err(e),
        event == Result::<u64, TrialError>::Ok(0u64) && total == expected ==> r == Result::<
            ReadProgress,
            TrialError,
        >::Ok(ReadProgress::Done),
        event == Result::<u64, TrialError>::Ok(0u64) && total != expected ==> r == Result::<
            ReadProgress,
            TrialError,
        >::Err(TrialError::SizeMismatch),
        event matches Result::Ok(n) ==> (n >= 1 && total + n <= expected ==> r == Result::<
            ReadProgress,
            TrialError,
        >::Ok(ReadProgress::More { total: (total + n) as u64 })),
        event matches Result::Ok(n) ==> (n >= 1 && total + n > expected ==> r == Result::<
            ReadProgress,
            TrialError,
        >::Err(TrialError::SizeMismatch)),
{
    match event {
        Result::Err(e) => Result::Err(e),
        Result::Ok(n) => {
            if n == 0 {
                if total == expected {
                    Result::Ok(ReadProgress::Done)
                } else {
                    Result::Err(TrialError::SizeMismatch)
                }
            } else {
                if n <= expected - total {
                    Result::Ok(ReadProgress::More { total: total + n })
                } else {
                    Result::Err(TrialError::SizeMismatch)
                }
            }
        },
    }
}

/// The total byte count of a sequence of read calls.
pub open spec fn sum_chunks(s: Seq<u64>) -> int
    decreases s.len(),
{
    if s.len() == 0 {
        0
    } else {
        sum_chunks(s.drop_last()) + s.last()
    }
}

proof fn lemma_chunks_take_step(s: Seq<u64>, i: int)
    requires
        0 <= i < s.len(),
    ensures
        sum_chunks(s.take(i + 1)) == sum_chunks(s.take(i)) + s[i],
{
    assert(s.take(i + 1).drop_last() =~= s.take(i));
    assert(s.take(i + 1).last() == s[i]);
}

proof fn lemma_chunks_prefix_le(s: Seq<u64>, i: int)
    requires
        0 <= i <= s.len(),
    ensures
        sum_chunks(s.take(i)) <= sum_chunks(s),
    decreases s.len() - i,
{
    if i == s.len() {
        assert(s.take(i) =~= s);
    } else {
        lemma_chunks_take_step(s, i);
        lemma_chunks_prefix_le(s, i + 1);
    }
}

/// Plays a whole file-read trial through [`apply_read`]: the successful
/// read calls return the byte counts in `chunks`, in order, and then a
/// zero-byte read signals end-of-file. The trial passes the sanity check
/// exactly when the byte counts add up to `expected`.
pub fn read_run(chunks: &Vec<u64>, expected: u64) -> (r: Result<(), TrialError>)
    requires
        forall|j: int| 0 <= j < chunks@.len() ==> (#[trigger] chunks@[j]) >= 1,
    ensures
        sum_chunks(chunks@) == expected ==> r == Result::<(), TrialError>::Ok(()),
        sum_chunks(chunks@) != expected ==> r == Result::<(), TrialError>::Err(
            TrialError::SizeMismatch,
        ),
{
    let n: usize = chunks.len();
    let mut total: u64 = 0;
    let mut i: usize = 0;
    while i < n
        invariant
            n == chunks@.len(),
            0 <= i <= n,
            forall|j: int| 0 <= j < n ==> (#[trigger] chunks@[j]) >= 1,
            total <= expected,
            total == sum_chunks(chunks@.take(i as int)),
        decreases n - i,
    {
        proof {
            lemma_chunks_take_step(chunks@, i as int);
        }
        match apply_read(total, expected, Result::Ok(chunks[i])) {
            Result::Ok(ReadProgress::More { total: t }) => {
                total = t;
            },
            Result::Ok(ReadProgress::Done) => {
                proof {
                    assert(false);
                }
            },
            Result::Err(_) => {
                proof {
                    lemma_chunks_prefix_le(chunks@, i as int + 1);
                }
                return Result::Err(TrialError::SizeMismatch);
            },
        }
        i += 1;
    }
    proof {
        assert(chunks@.take(n as int) =~= chunks@);
    }
    match apply_read(total, expected, Result::Ok(0)) {
        Result::Ok(_) => Result::Ok(()),
        Result::Err(_) => Result::Err(TrialError::SizeMismatch),
    }
}

} // verus!
