//! Progress tracking: speed, ETA, completion and display strings.

use youtube_downloader::models::DownloadProgress;
use youtube_downloader::progress::ProgressTracker;

#[test]
fn speed_from_two_samples_is_byte_difference_over_time() {
    let mut t = ProgressTracker::new(0);
    let first = t.update(0, 1_000_000, 0);
    // With a single sample, speed and ETA are both zero.
    assert_eq!(first.download_speed, 0);
    assert_eq!(first.eta_seconds, 0);

    // (t0, b0) = (0 ms, 0), (t1, b1) = (1000 ms, 500000): 500000 B/s.
    let second = t.update(500_000, 1_000_000, 1000);
    assert_eq!(second.download_speed, 500_000);
    assert_eq!(second.eta_seconds, 1);
    assert!(!second.is_complete);
}

#[test]
fn percentage_monotone_and_exact_at_completion() {
    let total = 1_000_000u64;
    let mut t = ProgressTracker::new(0);
    let mut last_pct = 0u64;
    let mut now = 0u64;
    for downloaded in [0u64, 250_000, 500_000, 750_000, 1_000_000] {
        let p = t.update(downloaded, total, now);
        let pct = p.percentage();
        assert!(pct >= last_pct);
        assert!(pct <= 100);
        last_pct = pct;
        now += 500;
    }
    assert_eq!(last_pct, 100);
    let done = t.update(total, total, now);
    assert!(done.is_complete);
    assert_eq!(done.percentage(), 100);
}

#[test]
fn zero_total_is_never_complete() {
    let mut t = ProgressTracker::new(0);
    let p = t.update(0, 0, 100);
    assert!(!p.is_complete);
    assert_eq!(p.percentage(), 0);
}

#[test]
fn reset_restarts_the_window() {
    let mut t = ProgressTracker::new(0);
    t.update(100, 1000, 10);
    t.update(200, 1000, 20);
    t.reset(500, 1000);
    assert_eq!(t.elapsed_time(), 0);
    let p = t.update(600, 1000, 2000);
    // One second, 100 fresh bytes: 100 B/s from the restarted window.
    assert_eq!(p.download_speed, 100);
}

#[test]
fn average_speed_is_total_over_elapsed() {
    let mut t = ProgressTracker::new(0);
    t.update(250_000, 1_000_000, 500);
    assert_eq!(t.average_speed(), 500_000);
    assert_eq!(t.elapsed_time(), 500);
}

#[test]
fn display_strings() {
    let p = DownloadProgress {
        total_size: 10_000_000,
        downloaded_size: 2_500_000,
        download_speed: 1_536_000,
        eta_seconds: 0,
        is_complete: false,
    };
    assert_eq!(p.size_string(), "9.5 MB");
    assert_eq!(p.downloaded_string(), "2.3 MB");
    assert_eq!(p.speed_string(), "1.4 MB/s");
    assert_eq!(p.eta_string(), "Unknown");

    let q = DownloadProgress {
        total_size: 512,
        downloaded_size: 512,
        download_speed: 800,
        eta_seconds: 75,
        is_complete: true,
    };
    assert_eq!(q.size_string(), "512 B");
    assert_eq!(q.speed_string(), "800 B/s");
    assert_eq!(q.eta_string(), "1m 15s");

    let r = DownloadProgress {
        total_size: 0,
        downloaded_size: 0,
        download_speed: 0,
        eta_seconds: 7300,
        is_complete: false,
    };
    assert_eq!(r.eta_string(), "2h 1m");
    assert_eq!(DownloadProgress::format_bytes(2048), "2.0 KB");
    assert_eq!(DownloadProgress::format_bytes(3_221_225_472), "3.0 GB");
}

#[test]
fn stale_window_falls_back_to_full_span() {
    let mut t = ProgressTracker::new(0);
    t.update(0, 0, 0);
    // Ten seconds later only one sample is recent, so speed falls
    // back to the oldest-to-newest span: 500000 bytes over 10 s.
    let p = t.update(500_000, 0, 10_000);
    assert_eq!(p.download_speed, 50_000);
}
