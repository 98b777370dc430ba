use readbench::reader::{
    apply_read, read_run, ReadProgress, EXPECTED_FILE_LEN, READ_CHUNK_LEN,
};
use readbench::runner::TrialError;

#[test]
fn expected_constants() {
    assert_eq!(EXPECTED_FILE_LEN, 262_144);
    assert_eq!(READ_CHUNK_LEN, 2048);
}

#[test]
fn full_file_in_buffer_sized_chunks_passes() {
    // 256 KiB read with a 2048-byte buffer: 128 full chunks, then
    // end-of-file; the byte counts add up to exactly 262144.
    let chunks = vec![READ_CHUNK_LEN as u64; 128];
    assert_eq!(read_run(&chunks, EXPECTED_FILE_LEN), Ok(()));
}

#[test]
fn short_file_fails_the_sanity_check() {
    let chunks = vec![READ_CHUNK_LEN as u64; 127];
    assert_eq!(
        read_run(&chunks, EXPECTED_FILE_LEN),
        Err(TrialError::SizeMismatch)
    );
}

#[test]
fn long_file_fails_the_sanity_check() {
    let chunks = vec![READ_CHUNK_LEN as u64; 129];
    assert_eq!(
        read_run(&chunks, EXPECTED_FILE_LEN),
        Err(TrialError::SizeMismatch)
    );
}

#[test]
fn uneven_chunks_only_their_sum_matters() {
    let chunks = vec![100_000, 62_144, 100_000];
    assert_eq!(read_run(&chunks, EXPECTED_FILE_LEN), Ok(()));
}

#[test]
fn apply_read_accumulates() {
    assert_eq!(
        apply_read(0, 10, Ok(4)),
        Ok(ReadProgress::More { total: 4 })
    );
    assert_eq!(
        apply_read(4, 10, Ok(6)),
        Ok(ReadProgress::More { total: 10 })
    );
}

#[test]
fn apply_read_finishes_on_matching_eof() {
    assert_eq!(apply_read(10, 10, Ok(0)), Ok(ReadProgress::Done));
}

#[test]
fn apply_read_rejects_eof_with_missing_bytes() {
    assert_eq!(apply_read(9, 10, Ok(0)), Err(TrialError::SizeMismatch));
}

#[test]
fn apply_read_rejects_overshooting_read() {
    assert_eq!(apply_read(8, 10, Ok(5)), Err(TrialError::SizeMismatch));
}

#[test]
fn apply_read_propagates_a_read_failure_untouched() {
    assert_eq!(
        apply_read(0, 10, Err(TrialError::ReadFailed)),
        Err(TrialError::ReadFailed)
    );
    assert_eq!(
        apply_read(5, 10, Err(TrialError::OpenFailed)),
        Err(TrialError::OpenFailed)
    );
}
