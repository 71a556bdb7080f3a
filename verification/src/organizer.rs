//! File naming and disk-space decisions.  Reading directories and
//! free-space numbers is I/O and stays with the caller; the rules that
//! judge those numbers and build names live here.

use vstd::prelude::*;

use crate::models::{Format, VideoInfo};
use crate::validation::{spec_sanitize_filename, UrlValidator};

verus! {

/// Names output files and judges disk space.
pub struct FileOrganizer;

impl FileOrganizer {
    /// The output filename: the sanitized title, the quality label in
    /// brackets, and the format's container extension.
    pub fn generate_filename(video_info: &VideoInfo, format: &Format) -> (r: String)
        ensures
            r@ == spec_sanitize_filename(video_info.title@) + " ["@ + format.quality@ + "]."@
                + format.file_extension@,
    {
        let mut s = UrlValidator::sanitize_filename(video_info.title.as_str());
        s.append(" [");
        s.append(format.quality.as_str());
        s.append("].");
        s.append(format.file_extension.as_str());
        assert(s@ =~= spec_sanitize_filename(video_info.title@) + " ["@ + format.quality@ + "]."@
            + format.file_extension@);
        s
    }

    /// Whether `available` bytes of free space suffice for a download
    /// of `required_size` bytes; the free-space number comes from the
    /// caller, which reads it from the filesystem.
    pub fn check_disk_space(available: u64, required_size: u64) -> (ok: bool)
        ensures
            ok == (available >= required_size),
    {
        available >= required_size
    }
}

} // verus!
