//! Application settings: the tuning knobs, their defaults, advisory
//! validation, and the effective values after clamping.  Loading and
//! saving the configuration file is I/O and stays with the caller.

use vstd::prelude::*;

verus! {

/// Smallest advisable chunk size, 64 KiB.
pub const SETTINGS_CHUNK_MIN: usize = 65536;

/// Largest advisable chunk size, 10 MiB.
pub const SETTINGS_CHUNK_MAX: usize = 10485760;

/// The application settings.
#[derive(Debug)]
pub struct Settings {
    /// Default directory for downloaded videos.
    pub default_output_directory: Option<String>,
    /// Preferred video quality, such as `1080p` or `best`.
    pub default_quality: Option<String>,
    /// Maximum number of concurrent chunk downloads.
    pub max_concurrent_downloads: usize,
    /// Size of each download chunk in bytes.
    pub chunk_size: usize,
    /// Automatically resume interrupted downloads.
    pub auto_resume: bool,
    /// Ask for confirmation before downloading large files.
    pub confirm_large_downloads: bool,
    /// Threshold in bytes above which a download counts as large.
    pub large_download_threshold: u64,
    /// Maximum retries for failed downloads.
    pub max_retries: u32,
    /// Timeout for network requests in seconds.
    pub request_timeout: u64,
    /// Prefer audio-only downloads by default.
    pub prefer_audio_only: bool,
}

/// Largest advisable worker count.
pub const SETTINGS_WORKERS_MAX: usize = 8;

/// The advisory warnings `validate` hands back for a settings value,
/// given whether the configured output directory exists on disk.
pub open spec fn spec_settings_warnings(s: Settings, output_directory_exists: bool) -> Seq<
    Seq<char>,
> {
    (if s.max_concurrent_downloads == 0 {
        seq!["max_concurrent_downloads cannot be 0, using 1"@]
    } else if s.max_concurrent_downloads > SETTINGS_WORKERS_MAX {
        seq!["max_concurrent_downloads > 8 may cause issues with some servers"@]
    } else {
        Seq::<Seq<char>>::empty()
    }) + (if s.chunk_size < SETTINGS_CHUNK_MIN {
        seq!["chunk_size < 64KB may result in too many HTTP requests"@]
    } else if s.chunk_size > SETTINGS_CHUNK_MAX {
        seq!["chunk_size > 10MB may use excessive memory"@]
    } else {
        Seq::<Seq<char>>::empty()
    }) + (if s.request_timeout < 5 {
        seq!["request_timeout < 5 seconds may cause timeouts on slow connections"@]
    } else {
        Seq::<Seq<char>>::empty()
    }) + (match s.default_output_directory {
        Some(dir) => if !output_directory_exists {
            seq!["Output directory does not exist: "@ + dir@]
        } else {
            Seq::<Seq<char>>::empty()
        },
        None => Seq::<Seq<char>>::empty(),
    })
}

impl Default for Settings {
    /// The defaults: four workers on 1 MiB chunks, auto-resume on,
    /// confirmation above 100 MiB, three retries, a 30 s timeout, and
    /// the best quality.
    fn default() -> (r: Settings)
        ensures
            r.default_output_directory is None,
            r.default_quality matches Some(q) && q@ == "best"@,
            r.max_concurrent_downloads == 4,
            r.chunk_size == 1048576,
            r.auto_resume,
            r.confirm_large_downloads,
            r.large_download_threshold == 104857600,
            r.max_retries == 3,
            r.request_timeout == 30,
            !r.prefer_audio_only,
    {
        Settings {
            default_output_directory: None,
            default_quality: Some(String::from_str("best")),
            max_concurrent_downloads: 4,
            chunk_size: 1048576,
            auto_resume: true,
            confirm_large_downloads: true,
            large_download_threshold: 104857600,
            max_retries: 3,
            request_timeout: 30,
            prefer_audio_only: false,
        }
    }
}

impl Settings {
    /// Advisory warnings for values that will work but badly: a zero
    /// or oversized worker count, a chunk size outside 64 KiB to
    /// 10 MiB, a very short timeout, or a configured output directory
    /// that is not there.  Whether that directory exists is a
    /// filesystem fact the caller reads and hands in; it is ignored
    /// when no directory is configured.
    pub fn validate(&self, output_directory_exists: bool) -> (warnings: Vec<String>)
        ensures
            warnings@.map_values(|w: String| w@) == spec_settings_warnings(
                *self,
                output_directory_exists,
            ),
    {
        let mut warnings: Vec<String> = Vec::new();
        if self.max_concurrent_downloads == 0 {
            warnings.push(String::from_str("max_concurrent_downloads cannot be 0, using 1"));
        } else if self.max_concurrent_downloads > SETTINGS_WORKERS_MAX {
            warnings.push(
                String::from_str("max_concurrent_downloads > 8 may cause issues with some servers"),
            );
        }
        if self.chunk_size < SETTINGS_CHUNK_MIN {
            warnings.push(
                String::from_str("chunk_size < 64KB may result in too many HTTP requests"),
            );
        } else if self.chunk_size > SETTINGS_CHUNK_MAX {
            warnings.push(String::from_str("chunk_size > 10MB may use excessive memory"));
        }
        if self.request_timeout < 5 {
            warnings.push(
                String::from_str(
                    "request_timeout < 5 seconds may cause timeouts on slow connections",
                ),
            );
        }
        match &self.default_output_directory {
            Some(dir) => {
                if !output_directory_exists {
                    let mut w = String::from_str("Output directory does not exist: ");
                    w.append(dir.as_str());
                    warnings.push(w);
                }
            },
            None => (),
        }
        proof {
            assert(warnings@.map_values(|w: String| w@) =~= spec_settings_warnings(
                *self,
                output_directory_exists,
            ));
        }
        warnings
    }

    /// The worker count actually used: clamped into one to eight, the
    /// same hard ceiling the download manager enforces.
    pub fn effective_max_concurrent_downloads(&self) -> (r: usize)
        ensures
            r == if self.max_concurrent_downloads == 0 {
                1usize
            } else if self.max_concurrent_downloads > SETTINGS_WORKERS_MAX {
                SETTINGS_WORKERS_MAX
            } else {
                self.max_concurrent_downloads
            },
            1 <= r <= SETTINGS_WORKERS_MAX,
    {
        if self.max_concurrent_downloads == 0 {
            1
        } else if self.max_concurrent_downloads > SETTINGS_WORKERS_MAX {
            SETTINGS_WORKERS_MAX
        } else {
            self.max_concurrent_downloads
        }
    }

    /// The chunk size actually used: clamped into 64 KiB to 10 MiB.
    pub fn effective_chunk_size(&self) -> (r: usize)
        ensures
            r == if self.chunk_size < SETTINGS_CHUNK_MIN {
                SETTINGS_CHUNK_MIN
            } else if self.chunk_size > SETTINGS_CHUNK_MAX {
                SETTINGS_CHUNK_MAX
            } else {
                self.chunk_size
            },
            SETTINGS_CHUNK_MIN <= r <= SETTINGS_CHUNK_MAX,
    {
        if self.chunk_size < SETTINGS_CHUNK_MIN {
            SETTINGS_CHUNK_MIN
        } else if self.chunk_size > SETTINGS_CHUNK_MAX {
            SETTINGS_CHUNK_MAX
        } else {
            self.chunk_size
        }
    }
}

} // verus!
