//! The download engine: chunk planning, the manager state machine,
//! resume behaviour and the single-stream fallback.

use youtube_downloader::chunk::{plan_chunks, verify_chunk_size};
use youtube_downloader::manager::{ChunkState, DownloadManager, DownloadPhase, DownloadRequest};
use youtube_downloader::resume::{ChunkRecord, PartialDownloadState};

fn request(chunk_size: u64, max_concurrent: u64) -> DownloadRequest {
    DownloadRequest {
        url: "https://www.youtube.com/watch?v=dQw4w9WgXcQ".to_string(),
        output_path: "video.mp4".to_string(),
        expected_total_size: Some(10_000_000),
        chunk_size,
        max_concurrent,
        max_retries: 3,
        timeout_secs: 30,
    }
}

#[test]
fn chunk_plan_covers_exactly() {
    let plan = plan_chunks(10_000_000, 2_000_000);
    assert_eq!(plan.len(), 5);
    for (i, c) in plan.iter().enumerate() {
        assert_eq!(c.index, i as u64);
        assert_eq!(c.start, i as u64 * 2_000_000);
        assert_eq!(c.end, i as u64 * 2_000_000 + 1_999_999);
        assert_eq!(c.end - c.start + 1, 2_000_000);
    }
}

#[test]
fn chunk_plan_last_chunk_is_remainder() {
    let plan = plan_chunks(10_500_000, 2_000_000);
    assert_eq!(plan.len(), 6);
    let last = plan[5];
    assert_eq!(last.start, 10_000_000);
    assert_eq!(last.end, 10_499_999);
    assert_eq!(last.end - last.start + 1, 500_000);
    assert_eq!(plan_chunks(0, 2_000_000).len(), 0);
}

#[test]
fn verify_chunk_size_checks_exact_match() {
    assert!(verify_chunk_size(2_000_000, 2_000_000));
    assert!(!verify_chunk_size(1_999_999, 2_000_000));
}

#[test]
fn ranged_download_runs_to_completion() {
    let mut m = DownloadManager::new();
    let warnings = m.begin(&request(2_000_000, 2));
    assert!(warnings.is_empty());
    m.on_probe(Some(10_000_000), true);
    assert_eq!(m.phase, DownloadPhase::Resuming);
    let discard = m.on_partial(&None);
    assert!(!discard);
    assert_eq!(m.phase, DownloadPhase::InFlight);

    // Two worker slots: two chunks go out, a third has to wait.
    let c0 = m.next_chunk().unwrap();
    let c1 = m.next_chunk().unwrap();
    assert_eq!(c0.index, 0);
    assert_eq!(c1.index, 1);
    assert!(m.next_chunk().is_none());

    // A short write is rejected and the chunk becomes pending again.
    assert!(!m.on_chunk_done(0, 1_000_000));
    let again = m.next_chunk().unwrap();
    assert_eq!(again.index, 0);

    assert!(m.on_chunk_done(0, 2_000_000));
    assert!(m.on_chunk_done(1, 2_000_000));
    assert_eq!(m.downloaded, 4_000_000);

    for index in 2..5u64 {
        let c = m.next_chunk().unwrap();
        assert_eq!(c.index, index);
        assert!(m.on_chunk_done(index as usize, 2_000_000));
    }
    assert_eq!(m.phase, DownloadPhase::Finalizing);
    assert!(m.finalize());
    assert_eq!(m.phase, DownloadPhase::Complete);
    assert_eq!(m.downloaded, 10_000_000);
}

#[test]
fn begin_clamps_and_warns() {
    let mut m = DownloadManager::new();
    let warnings = m.begin(&request(1, 99));
    assert_eq!(warnings.len(), 2);
    assert_eq!(warnings[0], "chunk size adjusted into the supported range");
    assert_eq!(warnings[1], "concurrency adjusted into the supported range");
    assert_eq!(m.chunk_size, 65536);
    assert_eq!(m.max_concurrent, 8);
}

#[test]
fn resume_skips_complete_chunks() {
    let mut m = DownloadManager::new();
    m.begin(&request(2_000_000, 4));
    m.on_probe(Some(10_000_000), true);
    let partial = Some(PartialDownloadState {
        observed_size: 4_000_000,
        records: vec![
            ChunkRecord { index: 0, bytes_written: 2_000_000, complete: true },
            ChunkRecord { index: 1, bytes_written: 2_000_000, complete: true },
        ],
    });
    let discard = m.on_partial(&partial);
    assert!(!discard);
    assert_eq!(m.downloaded, 4_000_000);
    assert_eq!(m.chunk_states[0], ChunkState::Done);
    assert_eq!(m.chunk_states[1], ChunkState::Done);

    // Only the remaining chunks are requested: 2, 3, 4 and nothing else.
    let mut fetched = Vec::new();
    while let Some(c) = m.next_chunk() {
        fetched.push(c.index);
        assert!(m.on_chunk_done(c.index as usize, 2_000_000));
    }
    assert_eq!(fetched, vec![2, 3, 4]);
    assert!(m.finalize());
    assert_eq!(m.downloaded, 10_000_000);
}

#[test]
fn fallback_uses_one_worker_and_never_resumes() {
    let mut m = DownloadManager::new();
    m.begin(&request(2_000_000, 4));
    m.on_probe(Some(10_000_000), false);
    assert_eq!(m.phase, DownloadPhase::InFlight);
    assert_eq!(m.max_concurrent, 1);
    assert!(m.plan.is_empty());

    // No byte-range metadata to trust: resume is never offered.
    let partial = Some(PartialDownloadState {
        observed_size: 4_000_000,
        records: Vec::new(),
    });
    assert!(!m.can_resume(&partial));

    m.on_stream_done(10_000_000);
    assert!(m.finalize());
    assert_eq!(m.phase, DownloadPhase::Complete);
}

#[test]
fn stream_size_mismatch_fails_finalize() {
    let mut m = DownloadManager::new();
    m.begin(&request(2_000_000, 4));
    m.on_probe(Some(10_000_000), false);
    m.on_stream_done(9_000_000);
    assert!(!m.finalize());
    assert_eq!(m.phase, DownloadPhase::Failed);
}
