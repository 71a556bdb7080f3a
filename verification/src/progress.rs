//! Progress tracking: a bounded sliding window of `(time, bytes)`
//! samples from which throughput, ETA and completion are derived.
//!
//! Time enters as milliseconds supplied by the caller with every call;
//! speeds are bytes per second.  Speed is read from the samples of the
//! last three seconds when at least two exist, else from the whole
//! window; with fewer than two samples it is zero.

use std::collections::VecDeque;
use vstd::prelude::*;

use crate::models::DownloadProgress;

verus! {

/// How many samples the sliding window retains.
pub const MAX_SPEED_SAMPLES: usize = 10;

/// Samples no older than this many milliseconds count as recent.
pub const RECENT_WINDOW_MS: u64 = 3000;

/// Bytes saved per unit time between two samples, in bytes per
/// second, zero when no time passed; the byte difference saturates
/// at zero, the result at `u64::MAX`.
pub open spec fn spec_speed_between(t0: int, b0: int, t1: int, b1: int) -> int {
    if t1 > t0 {
        let diff = if b1 >= b0 {
            b1 - b0
        } else {
            0
        };
        let s = diff * 1000 / (t1 - t0);
        if s > u64::MAX {
            u64::MAX as int
        } else {
            s
        }
    } else {
        0
    }
}

/// Index of the first sample at or after the cutoff time, assuming
/// timestamps never decrease; the length when none qualifies.
pub open spec fn spec_first_recent(samples: Seq<(u64, u64)>, cutoff: int) -> int
    decreases samples.len(),
{
    if samples.len() == 0 {
        0
    } else if samples[0].0 >= cutoff {
        0
    } else {
        1 + spec_first_recent(samples.skip(1), cutoff)
    }
}

/// The cutoff below which samples no longer count as recent.
pub open spec fn spec_cutoff(now_ms: u64) -> int {
    if now_ms >= RECENT_WINDOW_MS {
        now_ms - RECENT_WINDOW_MS
    } else {
        0
    }
}

/// The speed the whole window denotes: from the recent samples when at
/// least two are recent, else from the oldest to the newest sample,
/// and zero with fewer than two samples.
pub open spec fn spec_window_speed(samples: Seq<(u64, u64)>, now_ms: u64) -> int {
    let k = spec_first_recent(samples, spec_cutoff(now_ms));
    let n = samples.len() as int;
    if n < 2 {
        0
    } else if n - k >= 2 {
        spec_speed_between(
            samples[k].0 as int,
            samples[k].1 as int,
            samples[n - 1].0 as int,
            samples[n - 1].1 as int,
        )
    } else {
        spec_speed_between(
            samples[0].0 as int,
            samples[0].1 as int,
            samples[n - 1].0 as int,
            samples[n - 1].1 as int,
        )
    }
}

/// The ETA in seconds: remaining bytes over speed, zero (unknown)
/// without positive speed or remaining work.
pub open spec fn spec_eta(downloaded: u64, total: u64, speed: int) -> int {
    if speed > 0 && total > downloaded {
        (total - downloaded) / speed
    } else {
        0
    }
}

/// Consumes cumulative byte counts and derives progress snapshots.
pub struct ProgressTracker {
    /// When tracking started, in caller-supplied milliseconds.
    pub start_ms: u64,
    /// Time of the latest update.
    pub last_update_ms: u64,
    /// Byte count of the latest update.
    pub last_downloaded: u64,
    /// Sliding window of `(time, cumulative bytes)` samples.
    pub speed_samples: VecDeque<(u64, u64)>,
    /// Capacity of the sliding window.
    pub max_samples: usize,
}

impl ProgressTracker {
    /// Timestamps run forward: tracking started no later than the
    /// newest sample, samples are ordered, and none is newer than the
    /// latest update; the window never outgrows its bound.
    pub open spec fn wf(self) -> bool {
        &&& self.start_ms <= self.last_update_ms
        &&& self.max_samples == MAX_SPEED_SAMPLES
        &&& self.speed_samples@.len() <= self.max_samples
        &&& forall|i: int, j: int|
            0 <= i <= j < self.speed_samples@.len() ==> (#[trigger] self.speed_samples@[i]).0 <= (
            #[trigger] self.speed_samples@[j]).0
        &&& forall|i: int|
            0 <= i < self.speed_samples@.len() ==> (#[trigger] self.speed_samples@[i]).0
                <= self.last_update_ms
    }

    /// A fresh tracker, starting its clock at `now_ms`.
    pub fn new(now_ms: u64) -> (t: ProgressTracker)
        ensures
            t.wf(),
            t.start_ms == now_ms,
            t.last_update_ms == now_ms,
            t.last_downloaded == 0,
            t.speed_samples@.len() == 0,
    {
        ProgressTracker {
            start_ms: now_ms,
            last_update_ms: now_ms,
            last_downloaded: 0,
            speed_samples: VecDeque::new(),
            max_samples: MAX_SPEED_SAMPLES,
        }
    }

    /// Record a new cumulative byte count at time `now_ms` and derive
    /// the progress snapshot: the sample joins the window (evicting
    /// the oldest sample when full), speed is read from the window,
    /// the ETA from the speed, and the download is complete exactly
    /// when the byte count has reached a nonzero total.
    pub fn update(&mut self, downloaded: u64, total: u64, now_ms: u64) -> (p: DownloadProgress)
        requires
            old(self).wf(),
            now_ms >= old(self).last_update_ms,
        ensures
            final(self).wf(),
            final(self).start_ms == old(self).start_ms,
            final(self).last_update_ms == now_ms,
            final(self).last_downloaded == downloaded,
            final(self).speed_samples@ == if old(self).speed_samples@.len() < MAX_SPEED_SAMPLES {
                old(self).speed_samples@.push((now_ms, downloaded))
            } else {
                old(self).speed_samples@.push((now_ms, downloaded)).skip(1)
            },
            p.total_size == total,
            p.downloaded_size == downloaded,
            p.download_speed == spec_window_speed(final(self).speed_samples@, now_ms),
            p.eta_seconds == spec_eta(downloaded, total, p.download_speed as int),
            p.is_complete == (downloaded >= total && total > 0),
    {
        self.speed_samples.push_back((now_ms, downloaded));
        if self.speed_samples.len() > self.max_samples {
            proof {
                assert(old(self).speed_samples@.push((now_ms, downloaded)).skip(1)
                    =~= old(self).speed_samples@.push((now_ms, downloaded)).subrange(
                    1,
                    old(self).speed_samples@.push((now_ms, downloaded)).len() as int,
                ));
            }
            self.speed_samples.pop_front();
        }
        let download_speed = window_speed(&self.speed_samples, now_ms);
        let eta_seconds: u64 = if download_speed > 0 && total > downloaded {
            (total - downloaded) / download_speed
        } else {
            0
        };
        let is_complete = downloaded >= total && total > 0;
        self.last_update_ms = now_ms;
        self.last_downloaded = downloaded;
        DownloadProgress {
            total_size: total,
            downloaded_size: downloaded,
            download_speed,
            eta_seconds,
            is_complete,
        }
    }

    /// The overall average since tracking started, in bytes per
    /// second: the latest byte count over the elapsed wall-clock time,
    /// zero when no time has passed or nothing arrived yet.
    pub fn average_speed(&self) -> (r: u64)
        requires
            self.wf(),
        ensures
            r as int == if self.last_update_ms > self.start_ms && self.last_downloaded > 0 {
                spec_speed_between(
                    self.start_ms as int,
                    0,
                    self.last_update_ms as int,
                    self.last_downloaded as int,
                )
            } else {
                0
            },
    {
        if self.last_update_ms > self.start_ms && self.last_downloaded > 0 {
            speed_between(self.start_ms, 0, self.last_update_ms, self.last_downloaded)
        } else {
            0
        }
    }

    /// Milliseconds between the start of tracking and the latest
    /// update.
    pub fn elapsed_time(&self) -> (r: u64)
        requires
            self.wf(),
        ensures
            r == self.last_update_ms - self.start_ms,
    {
        self.last_update_ms - self.start_ms
    }

    /// Start over at `now_ms` with `initial_downloaded` bytes already
    /// present, as when a resumed download begins partway through; the
    /// window restarts with that one sample.
    pub fn reset(&mut self, initial_downloaded: u64, now_ms: u64)
        requires
            old(self).wf(),
        ensures
            final(self).wf(),
            final(self).start_ms == now_ms,
            final(self).last_update_ms == now_ms,
            final(self).last_downloaded == initial_downloaded,
            final(self).speed_samples@ =~= seq![(now_ms, initial_downloaded)],
    {
        self.start_ms = now_ms;
        self.last_update_ms = now_ms;
        self.last_downloaded = initial_downloaded;
        self.speed_samples.clear();
        self.speed_samples.push_back((now_ms, initial_downloaded));
        proof {
            assert(self.speed_samples@ =~= seq![(now_ms, initial_downloaded)]);
        }
    }
}

/// The speed between two samples, clamped into `u64`.
pub fn speed_between(t0: u64, b0: u64, t1: u64, b1: u64) -> (r: u64)
    ensures
        r as int == spec_speed_between(t0 as int, b0 as int, t1 as int, b1 as int),
{
    if t1 > t0 {
        let diff: u64 = if b1 >= b0 {
            b1 - b0
        } else {
            0
        };
        let dt = t1 - t0;
        let s = (diff as u128) * 1000 / (dt as u128);
        if s > u64::MAX as u128 {
            u64::MAX
        } else {
            s as u64
        }
    } else {
        0
    }
}

/// The speed the sample window denotes at time `now_ms`.
pub fn window_speed(samples: &VecDeque<(u64, u64)>, now_ms: u64) -> (r: u64)
    requires
        forall|i: int, j: int|
            0 <= i <= j < samples@.len() ==> (#[trigger] samples@[i]).0 <= (
            #[trigger] samples@[j]).0,
    ensures
        r as int == spec_window_speed(samples@, now_ms),
{
    let n = samples.len();
    if n < 2 {
        return 0;
    }
    let cutoff: u64 = if now_ms >= RECENT_WINDOW_MS {
        now_ms - RECENT_WINDOW_MS
    } else {
        0
    };
    let mut k: usize = 0;
    proof {
        lemma_first_recent_bounds(samples@, spec_cutoff(now_ms));
        assert(samples@.skip(0) =~= samples@);
    }
    while k < n && samples[k].0 < cutoff
        invariant
            n == samples@.len(),
            n >= 2,
            cutoff == spec_cutoff(now_ms),
            k <= n,
            spec_first_recent(samples@, cutoff as int) == k + spec_first_recent(
                samples@.skip(k as int),
                cutoff as int,
            ),
            spec_first_recent(samples@, cutoff as int) >= k,
        decreases n - k,
    {
        proof {
            assert(samples@.skip(k as int)[0] == samples@[k as int]);
            assert(samples@.skip(k as int).skip(1) =~= samples@.skip(k + 1));
            lemma_first_recent_bounds(samples@.skip(k + 1), cutoff as int);
        }
        k = k + 1;
    }
    proof {
        if k < n {
            assert(samples@.skip(k as int)[0] == samples@[k as int]);
        }
        lemma_first_recent_bounds(samples@.skip(k as int), cutoff as int);
        assert(spec_first_recent(samples@, cutoff as int) == k);
    }
    let first: (u64, u64) = if n - k >= 2 {
        samples[k]
    } else {
        samples[0]
    };
    let last = samples[n - 1];
    speed_between(first.0, first.1, last.0, last.1)
}

/// The first-recent index never exceeds the sample count.
proof fn lemma_first_recent_bounds(samples: Seq<(u64, u64)>, cutoff: int)
    ensures
        0 <= spec_first_recent(samples, cutoff) <= samples.len(),
    decreases samples.len(),
{
    if samples.len() > 0 && samples[0].0 < cutoff {
        lemma_first_recent_bounds(samples.skip(1), cutoff);
    }
}

} // verus!
