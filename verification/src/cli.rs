//! The command-line request and its validation.  Argument parsing
//! itself is the caller's concern; the parsed values land here and
//! are judged by the same rules the engine uses.

use vstd::prelude::*;

use crate::error::DownloaderError;
use crate::validation::{spec_is_valid_output_path, spec_is_valid_youtube_url, UrlValidator};

verus! {

/// The parsed command-line arguments.
#[derive(Debug)]
pub struct Args {
    /// YouTube video URL to download.
    pub url: String,
    /// Output directory, when given.
    pub output: Option<String>,
    /// Skip interactive selection and use the best quality.
    pub auto: bool,
    /// Force an audio-only download.
    pub audio_only: bool,
    /// Verbose output.
    pub verbose: bool,
}

impl Args {
    /// Reject bad input before any network work: the URL must be a
    /// YouTube watch URL, and the output directory, when given, a
    /// valid path.
    pub fn validate(&self) -> (r: Result<(), DownloaderError>)
        ensures
            (r is Ok) == (spec_is_valid_youtube_url(self.url@) && match self.output {
                Some(o) => spec_is_valid_output_path(o@),
                None => true,
            }),
            !spec_is_valid_youtube_url(self.url@) ==> (r matches Err(
                DownloaderError::InvalidUrl(u),
            ) && u@ == self.url@),
            spec_is_valid_youtube_url(self.url@) && (match self.output {
                Some(o) => !spec_is_valid_output_path(o@),
                None => false,
            }) ==> (r matches Err(DownloaderError::FileSystem(m)) && m@
                == "invalid output path"@),
    {
        if !UrlValidator::is_valid_youtube_url(self.url.as_str()) {
            return Err(DownloaderError::InvalidUrl(self.url.clone()));
        }
        match &self.output {
            Some(o) => {
                if !UrlValidator::is_valid_output_path(o.as_str()) {
                    return Err(DownloaderError::FileSystem(String::from_str(
                        "invalid output path",
                    )));
                }
            },
            None => (),
        }
        Ok(())
    }
}

} // verus!
