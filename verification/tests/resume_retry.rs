//! Resume validation and the retry policy.

use youtube_downloader::chunk::plan_chunks;
use youtube_downloader::resume::{ChunkRecord, PartialDownloadState, ResumeManager};
use youtube_downloader::retry::RetryState;

#[test]
fn half_written_chunk_with_complete_mark_is_rejected() {
    let plan = plan_chunks(10_000_000, 2_000_000);
    let state = PartialDownloadState {
        observed_size: 3_500_000,
        records: vec![
            ChunkRecord { index: 0, bytes_written: 2_000_000, complete: true },
            ChunkRecord { index: 1, bytes_written: 1_500_000, complete: true },
        ],
    };
    assert!(!ResumeManager::validate_partial_download(&state, &plan, 10_000_000));

    let mut partial = Some(state);
    ResumeManager::cleanup_corrupted_download(&mut partial);
    assert!(partial.is_none());
}

#[test]
fn consistent_partial_is_accepted() {
    let plan = plan_chunks(10_000_000, 2_000_000);
    let state = PartialDownloadState {
        observed_size: 3_500_000,
        records: vec![
            ChunkRecord { index: 0, bytes_written: 2_000_000, complete: true },
            ChunkRecord { index: 1, bytes_written: 1_500_000, complete: false },
        ],
    };
    assert!(ResumeManager::validate_partial_download(&state, &plan, 10_000_000));

    let remaining = ResumeManager::remaining_chunks(&plan, &state);
    let indices: Vec<u64> = remaining.iter().map(|c| c.index).collect();
    assert_eq!(indices, vec![1, 2, 3, 4]);
}

#[test]
fn oversized_partial_is_rejected() {
    let plan = plan_chunks(10_000_000, 2_000_000);
    let state = PartialDownloadState { observed_size: 10_000_001, records: Vec::new() };
    assert!(!ResumeManager::validate_partial_download(&state, &plan, 10_000_000));
}

#[test]
fn partial_queries() {
    let state = PartialDownloadState { observed_size: 42, records: Vec::new() };
    let some = Some(state);
    assert!(ResumeManager::has_partial_download(&some));
    assert_eq!(ResumeManager::get_partial_size(&some).unwrap(), 42);
    let none: Option<PartialDownloadState> = None;
    assert!(!ResumeManager::has_partial_download(&none));
    assert!(ResumeManager::get_partial_size(&none).is_err());
}

#[test]
fn fails_twice_then_succeeds_with_three_attempts() {
    // A server that fails twice then succeeds, with a budget of 3.
    let mut state = RetryState::new(3);
    let mut attempts = 0u32;
    let mut delays = Vec::new();
    let outcomes = [false, false, true];
    let mut result = None;
    for ok in outcomes {
        attempts += 1;
        if ok {
            result = Some(attempts);
            break;
        }
        match state.record_failure(true) {
            Some(delay) => delays.push(delay),
            None => break,
        }
    }
    assert_eq!(result, Some(3));
    assert_eq!(attempts, 3);
    assert_eq!(delays, vec![100, 200]);
}

#[test]
fn retry_gives_up_when_budget_or_recovery_runs_out() {
    let mut state = RetryState::new(2);
    assert_eq!(state.record_failure(true), Some(100));
    assert_eq!(state.record_failure(true), None);

    let mut hopeless = RetryState::new(5);
    assert_eq!(hopeless.record_failure(false), None);
}

#[test]
fn backoff_caps_at_thirty_seconds() {
    let mut state = RetryState::new(20);
    let mut last = 0u64;
    for _ in 0..12 {
        if let Some(delay) = state.record_failure(true) {
            last = delay;
            assert!(delay <= 30_000);
        }
    }
    assert_eq!(last, 30_000);
}
