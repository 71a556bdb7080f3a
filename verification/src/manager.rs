//! The download orchestrator as a pure state machine.
//!
//! Every decision of a download — how to clamp the request, how to
//! react to the metadata probe, which chunks a trusted partial file
//! already covers, what to dispatch next, when the whole download is
//! finished or failed — is made here and verified.  The caller owns
//! the I/O: it performs probes, chunk fetches and sleeps, and feeds
//! each outcome back as an event.

use vstd::prelude::*;

use crate::chunk::{
    lemma_chunk_lens_sum_to_total, lemma_chunk_plan_partition, plan_chunks, spec_chunk_len,
    spec_is_plan, spec_len_sum_prefix, ChunkSpec,
};
use crate::resume::{
    spec_chunk_recorded_complete, spec_partial_valid, ChunkRecord, PartialDownloadState,
    ResumeManager,
};

verus! {

/// The states a download passes through.
#[derive(Clone, Copy, Debug, PartialEq, Eq, Structural)]
pub enum DownloadPhase {
    Planning,
    Probing,
    Resuming,
    InFlight,
    Finalizing,
    Complete,
    Failed,
}

/// What the manager knows about one planned chunk.
#[derive(Clone, Copy, Debug, PartialEq, Eq, Structural)]
pub enum ChunkState {
    /// Not yet handed to a worker.
    Pending,
    /// A worker is downloading it.
    Active,
    /// Fully written and size-verified.
    Done,
}

/// An immutable download request: where to fetch from, where to write,
/// and the tuning knobs.
#[derive(Debug)]
pub struct DownloadRequest {
    pub url: String,
    pub output_path: String,
    pub expected_total_size: Option<u64>,
    pub chunk_size: u64,
    pub max_concurrent: u64,
    pub max_retries: u32,
    pub timeout_secs: u64,
}

impl DownloadRequest {
    /// A request makes sense when its knobs are positive.
    pub open spec fn wf(self) -> bool {
        self.chunk_size > 0 && self.max_concurrent >= 1 && self.timeout_secs > 0
    }
}

/// Chunks are never smaller than 64 KiB.
pub const CHUNK_SIZE_MIN: u64 = 65536;

/// Chunks are never larger than 10 MiB.
pub const CHUNK_SIZE_MAX: u64 = 10485760;

/// The default chunk size of 1 MiB.
pub const CHUNK_SIZE_DEFAULT: u64 = 1048576;

/// At most this many workers run at once.
pub const MAX_WORKERS: u64 = 8;

/// The default worker count.
pub const DEFAULT_WORKERS: u64 = 4;

/// `v` clamped into the supported chunk-size range.
pub open spec fn spec_clamp_chunk_size(v: u64) -> u64 {
    if v < CHUNK_SIZE_MIN {
        CHUNK_SIZE_MIN
    } else if v > CHUNK_SIZE_MAX {
        CHUNK_SIZE_MAX
    } else {
        v
    }
}

/// `v` clamped into the supported worker range.
pub open spec fn spec_clamp_concurrency(v: u64) -> u64 {
    if v < 1 {
        1
    } else if v > MAX_WORKERS {
        MAX_WORKERS
    } else {
        v
    }
}

/// Clamp a requested chunk size into the supported range, reporting
/// whether an adjustment was made.
pub fn clamp_chunk_size(v: u64) -> (r: (u64, bool))
    ensures
        r.0 == spec_clamp_chunk_size(v),
        r.1 == (v < CHUNK_SIZE_MIN || v > CHUNK_SIZE_MAX),
        CHUNK_SIZE_MIN <= r.0 <= CHUNK_SIZE_MAX,
{
    if v < CHUNK_SIZE_MIN {
        (CHUNK_SIZE_MIN, true)
    } else if v > CHUNK_SIZE_MAX {
        (CHUNK_SIZE_MAX, true)
    } else {
        (v, false)
    }
}

/// Clamp a requested worker count into the supported range, reporting
/// whether an adjustment was made.
pub fn clamp_concurrency(v: u64) -> (r: (u64, bool))
    ensures
        r.0 == spec_clamp_concurrency(v),
        r.1 == (v < 1 || v > MAX_WORKERS),
        1 <= r.0 <= MAX_WORKERS,
{
    if v < 1 {
        (1, true)
    } else if v > MAX_WORKERS {
        (MAX_WORKERS, true)
    } else {
        (v, false)
    }
}

/// What chunk state `st` contributes to the downloaded byte count.
pub open spec fn spec_contrib(st: ChunkState, plan: Seq<ChunkSpec>, i: int) -> int {
    if st is Done {
        spec_chunk_len(plan[i])
    } else {
        0
    }
}

/// Bytes of the first `k` chunks that are fully downloaded.
pub open spec fn spec_done_bytes(states: Seq<ChunkState>, plan: Seq<ChunkSpec>, k: int) -> int
    decreases k,
{
    if k <= 0 {
        0
    } else {
        spec_done_bytes(states, plan, k - 1) + spec_contrib(states[k - 1], plan, k - 1)
    }
}

/// How many chunks are in state `s`.
pub open spec fn spec_count_state(states: Seq<ChunkState>, s: ChunkState) -> int
    decreases states.len(),
{
    if states.len() == 0 {
        0
    } else {
        spec_count_state(states.drop_last(), s) + if states.last() == s {
            1int
        } else {
            0int
        }
    }
}

/// Index of the first pending chunk, or the length when none is.
pub open spec fn spec_first_pending(states: Seq<ChunkState>) -> int
    decreases states.len(),
{
    if states.len() == 0 {
        0
    } else if states[0] is Pending {
        0
    } else {
        1 + spec_first_pending(states.skip(1))
    }
}

/// All chunks are fully downloaded.
pub open spec fn spec_all_done(states: Seq<ChunkState>) -> bool {
    forall|i: int| 0 <= i < states.len() ==> (#[trigger] states[i]) is Done
}

/// The download orchestrator.  In ranged mode it drives the chunk
/// plan; without range support it falls back to one worker streaming
/// the whole file.
pub struct DownloadManager {
    pub phase: DownloadPhase,
    pub chunk_size: u64,
    pub max_concurrent: u64,
    pub max_retries: u32,
    /// Whether the server supports ranges and the size is known, so
    /// the chunk plan is in force.
    pub ranged: bool,
    /// Whether the total size is known.
    pub size_known: bool,
    pub total_size: u64,
    pub plan: Vec<ChunkSpec>,
    pub chunk_states: Vec<ChunkState>,
    /// Bytes confirmed on disk, the one counter shared with progress
    /// reporting.
    pub downloaded: u64,
}

impl DownloadManager {
    /// The invariant every method preserves: the knobs stay clamped;
    /// in ranged mode the plan is exactly the chunk plan for the
    /// total, each chunk has a state, and the downloaded counter is
    /// the sum of the finished chunks' lengths; outside ranged mode
    /// there is no plan; finalization is only reached with every
    /// chunk done.
    pub open spec fn wf(self) -> bool {
        &&& CHUNK_SIZE_MIN <= self.chunk_size <= CHUNK_SIZE_MAX
        &&& 1 <= self.max_concurrent <= MAX_WORKERS
        &&& self.chunk_states@.len() == self.plan@.len()
        &&& (self.ranged ==> self.size_known && spec_is_plan(
            self.plan@,
            self.total_size,
            self.chunk_size,
        ))
        &&& (self.ranged ==> self.downloaded == spec_done_bytes(
            self.chunk_states@,
            self.plan@,
            self.plan@.len() as int,
        ))
        &&& (!self.ranged ==> self.plan@.len() == 0)
        &&& (self.phase is Planning || self.phase is Probing ==> self.plan@.len() == 0
            && self.downloaded == 0 && !self.ranged)
        &&& (self.phase is Resuming ==> self.ranged)
        &&& (self.ranged && self.phase is Finalizing ==> spec_all_done(self.chunk_states@))
    }

    /// A fresh manager with the default knobs, ready for `begin`.
    pub fn new() -> (m: DownloadManager)
        ensures
            m.wf(),
            m.phase is Planning,
            m.chunk_size == CHUNK_SIZE_DEFAULT,
            m.max_concurrent == DEFAULT_WORKERS,
            m.downloaded == 0,
    {
        DownloadManager {
            phase: DownloadPhase::Planning,
            chunk_size: CHUNK_SIZE_DEFAULT,
            max_concurrent: DEFAULT_WORKERS,
            max_retries: 3,
            ranged: false,
            size_known: false,
            total_size: 0,
            plan: Vec::new(),
            chunk_states: Vec::new(),
            downloaded: 0,
        }
    }

    /// Accept a request: clamp its knobs into the supported ranges
    /// rather than rejecting it, collect an advisory warning for each
    /// adjustment, and move on to probing.
    pub fn begin(&mut self, req: &DownloadRequest) -> (warnings: Vec<String>)
        requires
            old(self).wf(),
            old(self).phase is Planning,
        ensures
            final(self).wf(),
            final(self).phase is Probing,
            final(self).chunk_size == spec_clamp_chunk_size(req.chunk_size),
            final(self).max_concurrent == spec_clamp_concurrency(req.max_concurrent),
            final(self).max_retries == req.max_retries,
            final(self).downloaded == 0,
            final(self).plan@.len() == 0,
            !final(self).ranged,
            warnings@.len() == (if req.chunk_size < CHUNK_SIZE_MIN || req.chunk_size
                > CHUNK_SIZE_MAX {
                1int
            } else {
                0int
            }) + (if req.max_concurrent < 1 || req.max_concurrent > MAX_WORKERS {
                1int
            } else {
                0int
            }),
            (req.chunk_size < CHUNK_SIZE_MIN || req.chunk_size > CHUNK_SIZE_MAX)
                ==> warnings@[0]@ == "chunk size adjusted into the supported range"@,
            (!(req.chunk_size < CHUNK_SIZE_MIN || req.chunk_size > CHUNK_SIZE_MAX) && (
            req.max_concurrent < 1 || req.max_concurrent > MAX_WORKERS)) ==> warnings@[0]@
                == "concurrency adjusted into the supported range"@,
            ((req.chunk_size < CHUNK_SIZE_MIN || req.chunk_size > CHUNK_SIZE_MAX) && (
            req.max_concurrent < 1 || req.max_concurrent > MAX_WORKERS)) ==> warnings@[1]@
                == "concurrency adjusted into the supported range"@,
    {
        let mut warnings: Vec<String> = Vec::new();
        let (cs, cs_adj) = clamp_chunk_size(req.chunk_size);
        if cs_adj {
            warnings.push(String::from_str("chunk size adjusted into the supported range"));
        }
        let (mc, mc_adj) = clamp_concurrency(req.max_concurrent);
        if mc_adj {
            warnings.push(String::from_str("concurrency adjusted into the supported range"));
        }
        self.chunk_size = cs;
        self.max_concurrent = mc;
        self.max_retries = req.max_retries;
        self.phase = DownloadPhase::Probing;
        warnings
    }

    /// React to the metadata probe.  With range support and a known
    /// size, compute the chunk plan and move on to resume inspection.
    /// Otherwise fall back to a single worker streaming the whole
    /// file — no chunk plan, no resume — and start downloading.
    pub fn on_probe(&mut self, total_size: Option<u64>, supports_ranges: bool)
        requires
            old(self).wf(),
            old(self).phase is Probing,
        ensures
            final(self).wf(),
            final(self).chunk_size == old(self).chunk_size,
            final(self).max_retries == old(self).max_retries,
            final(self).downloaded == 0,
            supports_ranges && total_size is Some ==> {
                &&& final(self).ranged
                &&& final(self).size_known
                &&& final(self).total_size == total_size->0
                &&& spec_is_plan(final(self).plan@, total_size->0, old(self).chunk_size)
                &&& final(self).phase is Resuming
                &&& final(self).max_concurrent == old(self).max_concurrent
                &&& forall|i: int|
                    0 <= i < final(self).chunk_states@.len() ==> (#[trigger] final(self).chunk_states@[i]) is Pending
            },
            !(supports_ranges && total_size is Some) ==> {
                &&& !final(self).ranged
                &&& final(self).phase is InFlight
                &&& final(self).max_concurrent == 1
                &&& final(self).plan@.len() == 0
                &&& final(self).size_known == (total_size is Some)
                &&& (total_size matches Some(t) ==> final(self).total_size == t)
            },
    {
        match total_size {
            Some(t) if supports_ranges => {
                self.ranged = true;
                self.size_known = true;
                self.total_size = t;
                self.plan = plan_chunks(t, self.chunk_size);
                let n = self.plan.len();
                let mut states: Vec<ChunkState> = Vec::new();
                let mut i: usize = 0;
                while i < n
                    invariant
                        i <= n,
                        states@.len() == i,
                        forall|j: int| 0 <= j < i ==> (#[trigger] states@[j]) is Pending,
                    decreases n - i,
                {
                    states.push(ChunkState::Pending);
                    i = i + 1;
                }
                self.chunk_states = states;
                self.downloaded = 0;
                self.phase = DownloadPhase::Resuming;
                proof {
                    lemma_done_bytes_all_pending(
                        self.chunk_states@,
                        self.plan@,
                        self.plan@.len() as int,
                    );
                }
            },
            _ => {
                self.ranged = false;
                self.size_known = total_size.is_some();
                self.total_size = match total_size {
                    Some(t) => t,
                    None => 0,
                };
                self.plan = Vec::new();
                self.chunk_states = Vec::new();
                self.max_concurrent = 1;
                self.downloaded = 0;
                self.phase = DownloadPhase::InFlight;
            },
        }
    }

    /// React to the resume inspection.  A trustworthy partial file
    /// marks exactly its completely recorded chunks as done, so they
    /// are never fetched again; anything untrustworthy is discarded
    /// (the caller deletes the artifact when `discard` comes back
    /// true) and the download starts from nothing.
    pub fn on_partial(&mut self, partial: &Option<PartialDownloadState>) -> (discard: bool)
        requires
            old(self).wf(),
            old(self).phase is Resuming,
            old(self).downloaded == 0,
            forall|i: int|
                0 <= i < old(self).chunk_states@.len() ==> (#[trigger] old(self).chunk_states@[i]) is Pending,
        ensures
            final(self).wf(),
            final(self).phase is InFlight,
            final(self).ranged,
            final(self).plan == old(self).plan,
            final(self).total_size == old(self).total_size,
            final(self).chunk_size == old(self).chunk_size,
            final(self).max_concurrent == old(self).max_concurrent,
            final(self).max_retries == old(self).max_retries,
            match partial {
                Some(p) => {
                    &&& (spec_partial_valid(*p, old(self).plan@, old(self).total_size) ==> {
                        &&& !discard
                        &&& forall|i: int|
                            0 <= i < final(self).chunk_states@.len() ==> (#[trigger] final(self).chunk_states@[i]) == (if spec_chunk_recorded_complete(
                                p.records@,
                                i,
                            ) {
                                ChunkState::Done
                            } else {
                                ChunkState::Pending
                            })
                    })
                    &&& (!spec_partial_valid(*p, old(self).plan@, old(self).total_size) ==> {
                        &&& discard
                        &&& final(self).chunk_states == old(self).chunk_states
                        &&& final(self).downloaded == 0
                    })
                },
                None => {
                    &&& !discard
                    &&& final(self).chunk_states == old(self).chunk_states
                    &&& final(self).downloaded == 0
                },
            },
    {
        let ghost plan_view = self.plan@;
        let ghost total = self.total_size;
        proof {
            lemma_chunk_plan_partition(self.total_size, self.chunk_size);
            lemma_chunk_lens_sum_to_total(self.plan@, self.total_size, self.chunk_size);
        }
        match partial {
            Some(p) => {
                if ResumeManager::validate_partial_download(p, &self.plan, self.total_size) {
                    let n = self.plan.len();
                    let mut states: Vec<ChunkState> = Vec::new();
                    let mut done_bytes: u64 = 0;
                    let mut i: usize = 0;
                    while i < n
                        invariant
                            i <= n,
                            n == plan_view.len(),
                            self.plan@ == plan_view,
                            self.chunk_size > 0,
                            spec_is_plan(plan_view, total, self.chunk_size),
                            spec_len_sum_prefix(plan_view, plan_view.len() as int) == total,
                            forall|j: int|
                                0 <= j < plan_view.len() ==> 1 <= spec_chunk_len(
                                    #[trigger] plan_view[j],
                                ) <= self.chunk_size,
                            states@.len() == i,
                            forall|j: int|
                                0 <= j < i ==> (#[trigger] states@[j])
                                    == (if spec_chunk_recorded_complete(p.records@, j) {
                                    ChunkState::Done
                                } else {
                                    ChunkState::Pending
                                }),
                            done_bytes == spec_done_bytes(states@, plan_view, i as int),
                            done_bytes <= spec_len_sum_prefix(plan_view, i as int),
                        decreases n - i,
                    {
                        proof {
                            lemma_len_sum_nonneg_step(plan_view, i as int);
                        }
                        let c = self.plan[i];
                        let clen = c.end - c.start + 1;
                        let ghost pre = states@;
                        if chunk_complete_in(p, c.index) {
                            proof {
                                lemma_len_sum_monotone(plan_view, i + 1, plan_view.len() as int);
                            }
                            done_bytes = done_bytes + clen;
                            states.push(ChunkState::Done);
                        } else {
                            states.push(ChunkState::Pending);
                        }
                        proof {
                            assert(states@.drop_last() =~= pre);
                            lemma_done_bytes_prefix_agree(pre, states@, plan_view, i as int);
                        }
                        i = i + 1;
                    }
                    self.chunk_states = states;
                    self.downloaded = done_bytes;
                    self.phase = DownloadPhase::InFlight;
                    false
                } else {
                    self.phase = DownloadPhase::InFlight;
                    true
                }
            },
            None => {
                self.phase = DownloadPhase::InFlight;
                false
            },
        }
    }

    /// Hand out the next chunk to download: the first pending chunk,
    /// as long as a worker slot is free.  The chunk is marked active;
    /// no chunk is ever handed out twice at once, and byte ranges of
    /// distinct chunks never overlap.
    pub fn next_chunk(&mut self) -> (r: Option<ChunkSpec>)
        requires
            old(self).wf(),
            old(self).phase is InFlight,
            old(self).ranged,
        ensures
            final(self).wf(),
            final(self).phase is InFlight,
            final(self).ranged,
            final(self).plan == old(self).plan,
            final(self).downloaded == old(self).downloaded,
            final(self).total_size == old(self).total_size,
            final(self).max_concurrent == old(self).max_concurrent,
            (r is Some) <==> (spec_first_pending(old(self).chunk_states@) < old(self).chunk_states@.len() && spec_count_state(old(self).chunk_states@, ChunkState::Active)
                < old(self).max_concurrent),
            r matches Some(c) ==> {
                &&& c == old(self).plan@[spec_first_pending(old(self).chunk_states@)]
                &&& final(self).chunk_states@ == old(self).chunk_states@.update(
                    spec_first_pending(old(self).chunk_states@),
                    ChunkState::Active,
                )
            },
            r is None ==> final(self).chunk_states == old(self).chunk_states,
    {
        let active = self.count_active();
        if active >= self.max_concurrent {
            return None;
        }
        let n = self.chunk_states.len();
        let mut i: usize = 0;
        proof {
            assert(self.chunk_states@.skip(0) =~= self.chunk_states@);
            lemma_first_pending_bounds(self.chunk_states@);
        }
        while i < n
            invariant
                *self == *old(self),
                self.wf(),
                self.phase is InFlight,
                self.ranged,
                spec_count_state(self.chunk_states@, ChunkState::Active) < self.max_concurrent,
                n == self.chunk_states@.len(),
                i <= n,
                spec_first_pending(self.chunk_states@) == i + spec_first_pending(
                    self.chunk_states@.skip(i as int),
                ),
                spec_first_pending(self.chunk_states@) >= i,
            decreases n - i,
        {
            proof {
                assert(self.chunk_states@.skip(i as int)[0] == self.chunk_states@[i as int]);
                assert(self.chunk_states@.skip(i as int).skip(1) =~= self.chunk_states@.skip(
                    i + 1,
                ));
                lemma_first_pending_bounds(self.chunk_states@.skip(i + 1));
            }
            match self.chunk_states[i] {
                ChunkState::Pending => {
                    let ghost old_states = self.chunk_states@;
                    self.chunk_states[i] = ChunkState::Active;
                    proof {
                        lemma_done_bytes_update(
                            old_states,
                            self.plan@,
                            i as int,
                            ChunkState::Active,
                            old_states.len() as int,
                        );
                    }
                    return Some(self.plan[i]);
                },
                _ => {},
            }
            i = i + 1;
        }
        proof {
            assert(self.chunk_states@.skip(i as int).len() == 0);
        }
        None
    }

    /// A worker finished a chunk and reports the bytes it wrote.  The
    /// right count marks the chunk done; a short or long write is a
    /// failure, the chunk goes back to pending for another try, and
    /// the caller sees `false`.  When the last chunk lands, the
    /// download moves to finalizing.
    pub fn on_chunk_done(&mut self, index: usize, bytes_written: u64) -> (ok: bool)
        requires
            old(self).wf(),
            old(self).phase is InFlight,
            old(self).ranged,
            index < old(self).chunk_states@.len(),
            old(self).chunk_states@[index as int] is Active,
        ensures
            final(self).wf(),
            final(self).ranged,
            final(self).plan == old(self).plan,
            final(self).total_size == old(self).total_size,
            final(self).max_concurrent == old(self).max_concurrent,
            ok == (bytes_written == spec_chunk_len(old(self).plan@[index as int])),
            ok ==> {
                &&& final(self).chunk_states@ == old(self).chunk_states@.update(
                    index as int,
                    ChunkState::Done,
                )
                &&& final(self).downloaded == old(self).downloaded + bytes_written
                &&& final(self).phase == (if spec_all_done(final(self).chunk_states@) {
                    DownloadPhase::Finalizing
                } else {
                    DownloadPhase::InFlight
                })
            },
            !ok ==> {
                &&& final(self).chunk_states@ == old(self).chunk_states@.update(
                    index as int,
                    ChunkState::Pending,
                )
                &&& final(self).downloaded == old(self).downloaded
                &&& final(self).phase is InFlight
            },
            final(self).downloaded >= old(self).downloaded,
    {
        proof {
            lemma_chunk_plan_partition(self.total_size, self.chunk_size);
            lemma_chunk_lens_sum_to_total(self.plan@, self.total_size, self.chunk_size);
            lemma_done_bytes_le_len_sum(
                self.chunk_states@,
                self.plan@,
                self.plan@.len() as int,
            );
        }
        let c = self.plan[index];
        let expected = c.end - c.start + 1;
        let ghost old_states = self.chunk_states@;
        if bytes_written == expected {
            self.chunk_states[index] = ChunkState::Done;
            proof {
                lemma_done_bytes_update(
                    old_states,
                    self.plan@,
                    index as int,
                    ChunkState::Done,
                    old_states.len() as int,
                );
                lemma_done_bytes_le_len_sum(
                    self.chunk_states@,
                    self.plan@,
                    self.plan@.len() as int,
                );
            }
            self.downloaded = self.downloaded + bytes_written;
            if self.all_done() {
                self.phase = DownloadPhase::Finalizing;
            }
            true
        } else {
            self.chunk_states[index] = ChunkState::Pending;
            proof {
                lemma_done_bytes_update(
                    old_states,
                    self.plan@,
                    index as int,
                    ChunkState::Pending,
                    old_states.len() as int,
                );
            }
            false
        }
    }

    /// A worker failed on a chunk after its own retries; the chunk
    /// goes back to pending so the caller can decide between another
    /// dispatch and giving the download up.
    pub fn on_chunk_failed(&mut self, index: usize)
        requires
            old(self).wf(),
            old(self).phase is InFlight,
            old(self).ranged,
            index < old(self).chunk_states@.len(),
            old(self).chunk_states@[index as int] is Active,
        ensures
            final(self).wf(),
            final(self).phase is InFlight,
            final(self).ranged,
            final(self).plan == old(self).plan,
            final(self).downloaded == old(self).downloaded,
            final(self).total_size == old(self).total_size,
            final(self).max_concurrent == old(self).max_concurrent,
            final(self).chunk_states@ == old(self).chunk_states@.update(
                index as int,
                ChunkState::Pending,
            ),
    {
        let ghost old_states = self.chunk_states@;
        self.chunk_states[index] = ChunkState::Pending;
        proof {
            lemma_done_bytes_update(
                old_states,
                self.plan@,
                index as int,
                ChunkState::Pending,
                old_states.len() as int,
            );
        }
    }

    /// The single-stream fallback worker finished, reporting how many
    /// bytes it wrote.
    pub fn on_stream_done(&mut self, bytes_written: u64)
        requires
            old(self).wf(),
            old(self).phase is InFlight,
            !old(self).ranged,
        ensures
            final(self).wf(),
            final(self).phase is Finalizing,
            final(self).downloaded == bytes_written,
            final(self).size_known == old(self).size_known,
            final(self).total_size == old(self).total_size,
            !final(self).ranged,
    {
        self.downloaded = bytes_written;
        self.phase = DownloadPhase::Finalizing;
    }

    /// Close out the download.  In ranged mode every chunk is done and
    /// size-verified, so the bytes on disk provably sum to the total
    /// and finalization always succeeds.  In the fallback mode the
    /// stream's byte count is checked against the expected size when
    /// one is known.
    pub fn finalize(&mut self) -> (ok: bool)
        requires
            old(self).wf(),
            old(self).phase is Finalizing,
        ensures
            final(self).wf(),
            old(self).ranged ==> ok && final(self).downloaded == final(self).total_size,
            !old(self).ranged ==> ok == (!old(self).size_known || old(self).downloaded == old(self).total_size),
            ok ==> final(self).phase is Complete,
            !ok ==> final(self).phase is Failed,
            final(self).downloaded == old(self).downloaded,
    {
        if self.ranged {
            proof {
                lemma_chunk_lens_sum_to_total(self.plan@, self.total_size, self.chunk_size);
                lemma_done_bytes_all_done(
                    self.chunk_states@,
                    self.plan@,
                    self.plan@.len() as int,
                );
            }
            self.phase = DownloadPhase::Complete;
            true
        } else if !self.size_known || self.downloaded == self.total_size {
            self.phase = DownloadPhase::Complete;
            true
        } else {
            self.phase = DownloadPhase::Failed;
            false
        }
    }

    /// Any unretryable or retry-exhausted failure escalates here; the
    /// partial file is left in place for a later resume.
    pub fn fail(&mut self)
        requires
            old(self).wf(),
        ensures
            final(self).wf(),
            final(self).phase is Failed,
            final(self).downloaded == old(self).downloaded,
            final(self).chunk_states == old(self).chunk_states,
            final(self).plan == old(self).plan,
    {
        self.phase = DownloadPhase::Failed;
    }

    /// Whether a destination can be resumed: only a ranged download
    /// with a trustworthy partial artifact; without range metadata
    /// there is nothing to trust.
    pub fn can_resume(&self, partial: &Option<PartialDownloadState>) -> (r: bool)
        requires
            self.wf(),
        ensures
            r == (self.ranged && match partial {
                Some(p) => spec_partial_valid(*p, self.plan@, self.total_size),
                None => false,
            }),
    {
        if !self.ranged {
            return false;
        }
        match partial {
            Some(p) => ResumeManager::validate_partial_download(p, &self.plan, self.total_size),
            None => false,
        }
    }

    /// How many chunks are currently with a worker.
    fn count_active(&self) -> (r: u64)
        ensures
            r == spec_count_state(self.chunk_states@, ChunkState::Active),
    {
        let mut r: u64 = 0;
        let mut i: usize = 0;
        proof {
            assert(self.chunk_states@.take(0) =~= Seq::<ChunkState>::empty());
        }
        while i < self.chunk_states.len()
            invariant
                i <= self.chunk_states@.len(),
                r == spec_count_state(self.chunk_states@.take(i as int), ChunkState::Active),
                r <= i,
            decreases self.chunk_states@.len() - i,
        {
            proof {
                assert(self.chunk_states@.take(i + 1).drop_last() =~= self.chunk_states@.take(
                    i as int,
                ));
                assert(self.chunk_states@.take(i + 1).last() == self.chunk_states@[i as int]);
            }
            match self.chunk_states[i] {
                ChunkState::Active => {
                    r = r + 1;
                },
                _ => {},
            }
            i = i + 1;
        }
        proof {
            assert(self.chunk_states@.take(i as int) =~= self.chunk_states@);
        }
        r
    }

    /// Whether every chunk is done.
    fn all_done(&self) -> (r: bool)
        ensures
            r == spec_all_done(self.chunk_states@),
    {
        let mut i: usize = 0;
        while i < self.chunk_states.len()
            invariant
                i <= self.chunk_states@.len(),
                forall|j: int| 0 <= j < i ==> (#[trigger] self.chunk_states@[j]) is Done,
            decreases self.chunk_states@.len() - i,
        {
            match self.chunk_states[i] {
                ChunkState::Done => {},
                _ => {
                    return false;
                },
            }
            i = i + 1;
        }
        true
    }
}

/// Whether the partial state records chunk `index` as complete.
fn chunk_complete_in(p: &PartialDownloadState, index: u64) -> (r: bool)
    ensures
        r == spec_chunk_recorded_complete(p.records@, index as int),
{
    let mut i: usize = 0;
    while i < p.records.len()
        invariant
            i <= p.records@.len(),
            forall|j: int|
                0 <= j < i ==> !((#[trigger] p.records@[j]).index == index
                    && p.records@[j].complete),
        decreases p.records@.len() - i,
    {
        let rec = p.records[i];
        if rec.index == index && rec.complete {
            return true;
        }
        i = i + 1;
    }
    false
}

/// With no chunk done yet, no bytes count as downloaded.
proof fn lemma_done_bytes_all_pending(states: Seq<ChunkState>, plan: Seq<ChunkSpec>, k: int)
    requires
        k <= states.len(),
        forall|i: int| 0 <= i < states.len() ==> (#[trigger] states[i]) is Pending,
    ensures
        spec_done_bytes(states, plan, k) == 0,
    decreases k,
{
    if k > 0 {
        lemma_done_bytes_all_pending(states, plan, k - 1);
    }
}

/// Updating one chunk state shifts the downloaded sum by exactly the
/// difference of the two contributions.
proof fn lemma_done_bytes_update(
    states: Seq<ChunkState>,
    plan: Seq<ChunkSpec>,
    i: int,
    s: ChunkState,
    k: int,
)
    requires
        0 <= i < states.len(),
        0 <= k <= states.len(),
    ensures
        spec_done_bytes(states.update(i, s), plan, k) == spec_done_bytes(states, plan, k) + (if i
            < k {
            spec_contrib(s, plan, i) - spec_contrib(states[i], plan, i)
        } else {
            0
        }),
    decreases k,
{
    if k > 0 {
        lemma_done_bytes_update(states, plan, i, s, k - 1);
    }
}

/// The downloaded sum never exceeds the length sum of the same
/// prefix, as long as no chunk is longer than its planned range.
proof fn lemma_done_bytes_le_len_sum(states: Seq<ChunkState>, plan: Seq<ChunkSpec>, k: int)
    requires
        0 <= k <= states.len(),
        states.len() == plan.len(),
        forall|i: int| 0 <= i < plan.len() ==> spec_chunk_len(#[trigger] plan[i]) >= 0,
    ensures
        0 <= spec_done_bytes(states, plan, k) <= spec_len_sum_prefix(plan, k),
    decreases k,
{
    if k > 0 {
        lemma_done_bytes_le_len_sum(states, plan, k - 1);
    }
}

/// With every chunk done, the downloaded sum is the full length sum.
proof fn lemma_done_bytes_all_done(states: Seq<ChunkState>, plan: Seq<ChunkSpec>, k: int)
    requires
        0 <= k <= states.len(),
        spec_all_done(states),
    ensures
        spec_done_bytes(states, plan, k) == spec_len_sum_prefix(plan, k),
    decreases k,
{
    if k > 0 {
        lemma_done_bytes_all_done(states, plan, k - 1);
    }
}

/// Prefix length sums grow with the prefix when no length is
/// negative.
proof fn lemma_len_sum_monotone(plan: Seq<ChunkSpec>, k: int, n: int)
    requires
        0 <= k <= n <= plan.len(),
        forall|i: int| 0 <= i < plan.len() ==> spec_chunk_len(#[trigger] plan[i]) >= 0,
    ensures
        spec_len_sum_prefix(plan, k) <= spec_len_sum_prefix(plan, n),
    decreases n - k,
{
    if n > k {
        lemma_len_sum_monotone(plan, k, n - 1);
    }
}

/// One step of the length sum: adding chunk `k` adds its length.
proof fn lemma_len_sum_nonneg_step(plan: Seq<ChunkSpec>, k: int)
    requires
        0 <= k < plan.len(),
    ensures
        spec_len_sum_prefix(plan, k + 1) == spec_len_sum_prefix(plan, k) + spec_chunk_len(plan[k]),
{
}

/// The downloaded sum reads only the first `k` states, so two state
/// sequences that agree there yield the same sum.
proof fn lemma_done_bytes_prefix_agree(
    s1: Seq<ChunkState>,
    s2: Seq<ChunkState>,
    plan: Seq<ChunkSpec>,
    k: int,
)
    requires
        k <= s1.len(),
        k <= s2.len(),
        forall|j: int| 0 <= j < k ==> s1[j] == s2[j],
    ensures
        spec_done_bytes(s1, plan, k) == spec_done_bytes(s2, plan, k),
    decreases k,
{
    if k > 0 {
        lemma_done_bytes_prefix_agree(s1, s2, plan, k - 1);
    }
}

/// What gets dispatched is always pending: when the first-pending
/// index is in range, it names a chunk in state `Pending`.
pub proof fn lemma_first_pending_is_pending(states: Seq<ChunkState>)
    ensures
        spec_first_pending(states) < states.len() ==> states[spec_first_pending(
            states,
        )] is Pending,
    decreases states.len(),
{
    if states.len() > 0 && !(states[0] is Pending) {
        lemma_first_pending_is_pending(states.skip(1));
        lemma_first_pending_bounds(states.skip(1));
        let fp = spec_first_pending(states);
        if fp < states.len() {
            assert(states.skip(1)[fp - 1] == states[fp]);
        }
    }
}

/// Resuming never re-fetches a finished chunk: once a trustworthy
/// partial file has marked exactly its completely recorded chunks
/// done, a chunk with a complete record is never the next one handed
/// to a worker.
pub proof fn lemma_resume_skips_complete_chunks(
    states: Seq<ChunkState>,
    records: Seq<ChunkRecord>,
    i: int,
)
    requires
        forall|j: int|
            0 <= j < states.len() ==> (#[trigger] states[j]) == (if spec_chunk_recorded_complete(
                records,
                j,
            ) {
                ChunkState::Done
            } else {
                ChunkState::Pending
            }),
        0 <= i < states.len(),
        spec_chunk_recorded_complete(records, i),
    ensures
        spec_first_pending(states) != i,
{
    lemma_first_pending_is_pending(states);
}

/// The first-pending index never exceeds the chunk count.
proof fn lemma_first_pending_bounds(states: Seq<ChunkState>)
    ensures
        0 <= spec_first_pending(states) <= states.len(),
    decreases states.len(),
{
    if states.len() > 0 && !(states[0] is Pending) {
        lemma_first_pending_bounds(states.skip(1));
    }
}

} // verus!
