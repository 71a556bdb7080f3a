//! Resume logic: judging whether an on-disk partial download can be
//! trusted and which chunks it already satisfies.
//!
//! The filesystem facts — does the artifact exist, how large is it,
//! which chunk records does the sidecar hold — enter as plain values;
//! reading and deleting files is I/O and stays with the caller.  The
//! decisions about those values are made and verified here.

use vstd::prelude::*;

use crate::chunk::{spec_chunk_len, ChunkSpec};
use crate::error::DownloaderError;

verus! {

/// One sidecar record: which chunk it speaks of, how many bytes of it
/// were written, and whether it was marked complete.
#[derive(Clone, Copy, PartialEq, Eq, Structural, Debug)]
pub struct ChunkRecord {
    pub index: u64,
    pub bytes_written: u64,
    pub complete: bool,
}

/// What was found on disk for a destination: the partial artifact's
/// observed size and the chunk records of its sidecar metadata.
#[derive(Debug)]
pub struct PartialDownloadState {
    pub observed_size: u64,
    pub records: Vec<ChunkRecord>,
}

/// A chunk record fits the plan: it names a planned chunk, claims no
/// more bytes than that chunk holds, and claims exactly the chunk's
/// length when marked complete.
pub open spec fn spec_record_fits(r: ChunkRecord, plan: Seq<ChunkSpec>) -> bool {
    &&& (r.index as int) < plan.len()
    &&& r.bytes_written <= spec_chunk_len(plan[r.index as int])
    &&& (r.complete ==> r.bytes_written == spec_chunk_len(plan[r.index as int]))
}

/// A partial download is trustworthy for a plan and expected total:
/// the artifact is no larger than the expected total, the records name
/// strictly increasing chunk indices, and every record fits its chunk.
pub open spec fn spec_partial_valid(
    state: PartialDownloadState,
    plan: Seq<ChunkSpec>,
    expected_total_size: u64,
) -> bool {
    &&& state.observed_size <= expected_total_size
    &&& forall|i: int|
        0 <= i < state.records@.len() ==> spec_record_fits(#[trigger] state.records@[i], plan)
    &&& forall|i: int, j: int|
        0 <= i < j < state.records@.len() ==> (#[trigger] state.records@[i]).index < (
        #[trigger] state.records@[j]).index
}

/// Chunk `index` has a record marking it complete.
pub open spec fn spec_chunk_recorded_complete(records: Seq<ChunkRecord>, index: int) -> bool {
    exists|i: int|
        0 <= i < records.len() && (#[trigger] records[i]).index == index && records[i].complete
}

/// Judges partial downloads; all filesystem reads and deletes stay
/// with the caller.
pub struct ResumeManager;

impl ResumeManager {
    /// Whether a partial artifact exists at the destination.
    pub fn has_partial_download(partial: &Option<PartialDownloadState>) -> (r: bool)
        ensures
            r == partial.is_some(),
    {
        partial.is_some()
    }

    /// The observed size of the partial artifact, or an error when
    /// none exists.
    pub fn get_partial_size(partial: &Option<PartialDownloadState>) -> (r: Result<
        u64,
        DownloaderError,
    >)
        ensures
            match partial {
                Some(state) => r matches Ok(size) && size == state.observed_size,
                None => r matches Err(e) && e matches DownloaderError::Io(_),
            },
    {
        match partial {
            Some(state) => Ok(state.observed_size),
            None => Err(DownloaderError::Io(String::from_str("no partial download found"))),
        }
    }

    /// Whether the partial artifact can be trusted for this plan and
    /// expected total size.
    pub fn validate_partial_download(
        state: &PartialDownloadState,
        plan: &Vec<ChunkSpec>,
        expected_total_size: u64,
    ) -> (ok: bool)
        ensures
            ok == spec_partial_valid(*state, plan@, expected_total_size),
    {
        if state.observed_size > expected_total_size {
            return false;
        }
        let n = state.records.len();
        let mut i: usize = 0;
        while i < n
            invariant
                n == state.records@.len(),
                i <= n,
                forall|j: int|
                    0 <= j < i ==> spec_record_fits(#[trigger] state.records@[j], plan@),
                forall|j: int, k: int|
                    0 <= j < k < i ==> (#[trigger] state.records@[j]).index < (
                    #[trigger] state.records@[k]).index,
            decreases n - i,
        {
            let r = state.records[i];
            if r.index >= plan.len() as u64 {
                return false;
            }
            let c = plan[r.index as usize];
            let ok_fit: bool = if c.start <= c.end {
                let span = c.end - c.start;
                let within = r.bytes_written == 0 || r.bytes_written - 1 <= span;
                let exact = r.bytes_written >= 1 && r.bytes_written - 1 == span;
                within && (!r.complete || exact)
            } else {
                c.end + 1 == c.start && r.bytes_written == 0
            };
            if !ok_fit {
                return false;
            }
            if i > 0 && state.records[i - 1].index >= r.index {
                return false;
            }
            assert(spec_record_fits(state.records@[i as int], plan@));
            assert forall|j: int, k: int| 0 <= j < k < i + 1 implies (
            #[trigger] state.records@[j]).index < (#[trigger] state.records@[k]).index by {
                if k == i && j < i - 1 {
                    assert(state.records@[j].index < state.records@[i - 1].index);
                }
            }
            i = i + 1;
        }
        true
    }

    /// Forget a corrupted partial download, so a fresh attempt starts
    /// from nothing; deleting the artifact itself is the caller's I/O.
    pub fn cleanup_corrupted_download(partial: &mut Option<PartialDownloadState>)
        ensures
            final(partial).is_none(),
    {
        *partial = None;
    }

    /// The chunks of the plan that the partial download has not yet
    /// satisfied, in plan order: exactly those without a complete
    /// record.
    pub fn remaining_chunks(plan: &Vec<ChunkSpec>, state: &PartialDownloadState) -> (r: Vec<
        ChunkSpec,
    >)
        ensures
            r@ == plan@.filter(
                |c: ChunkSpec| !spec_chunk_recorded_complete(state.records@, c.index as int),
            ),
    {
        let ghost pred = |c: ChunkSpec|
            !spec_chunk_recorded_complete(state.records@, c.index as int);
        let mut r: Vec<ChunkSpec> = Vec::new();
        let mut i: usize = 0;
        proof {
            assert(plan@.take(0).filter(pred) =~= Seq::<ChunkSpec>::empty()) by {
                reveal(Seq::filter);
            }
        }
        while i < plan.len()
            invariant
                i <= plan@.len(),
                pred == (|c: ChunkSpec|
                    !spec_chunk_recorded_complete(state.records@, c.index as int)),
                r@ == plan@.take(i as int).filter(pred),
            decreases plan@.len() - i,
        {
            proof {
                crate::strutil::lemma_filter_take_step(plan@, pred, i as int);
            }
            let c = plan[i];
            if !chunk_recorded_complete(&state.records, c.index) {
                r.push(c);
            }
            i = i + 1;
        }
        proof {
            assert(plan@.take(i as int) =~= plan@);
        }
        r
    }
}

/// Whether some record marks chunk `index` complete.
fn chunk_recorded_complete(records: &Vec<ChunkRecord>, index: u64) -> (r: bool)
    ensures
        r == spec_chunk_recorded_complete(records@, index as int),
{
    let mut i: usize = 0;
    while i < records.len()
        invariant
            i <= records@.len(),
            forall|j: int|
                0 <= j < i ==> !((#[trigger] records@[j]).index == index && records@[j].complete),
        decreases records@.len() - i,
    {
        let rec = records[i];
        if rec.index == index && rec.complete {
            return true;
        }
        i = i + 1;
    }
    false
}

} // verus!
