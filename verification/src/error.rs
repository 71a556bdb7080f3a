//! Error classification: every failure the engine can report, which of
//! them are worth retrying, and the wording shown to people.

use vstd::prelude::*;

verus! {

/// What the engine knows about a failed network exchange: the HTTP
/// status if one arrived, whether the failure was a timeout or a
/// connect failure, and a short description.
#[derive(Debug)]
pub struct NetworkErrorInfo {
    pub status: Option<u16>,
    pub timeout: bool,
    pub connect: bool,
    pub message: String,
}

/// Every failure the downloader reports.
#[derive(Debug)]
pub enum DownloaderError {
    InvalidUrl(String),
    Network(NetworkErrorInfo),
    Io(String),
    Json(String),
    Toml(String),
    UrlParse(String),
    ExtractionFailed(String),
    DownloadFailed(String),
    FileSystem(String),
    UserCancelled,
    Configuration(String),
    InsufficientSpace,
    ResumeFailed(String),
    VideoNotFound,
    NoFormatsFound,
    Regex(String),
    Unknown(String),
}

/// Which errors are transient enough to retry: network failures
/// without a status, or with a server-side status, and failed resumes;
/// never bad input, cancellation, missing videos or full disks.
pub open spec fn spec_is_recoverable(e: DownloaderError) -> bool {
    match e {
        DownloaderError::Network(info) => match info.status {
            None => true,
            Some(code) => 500 <= code < 600,
        },
        DownloaderError::ResumeFailed(_) => true,
        DownloaderError::UserCancelled => false,
        DownloaderError::InvalidUrl(_) => false,
        DownloaderError::InsufficientSpace => false,
        DownloaderError::VideoNotFound => false,
        DownloaderError::NoFormatsFound => false,
        _ => true,
    }
}

/// The message shown to people for each error.
pub open spec fn spec_user_message(e: DownloaderError) -> Seq<char> {
    match e {
        DownloaderError::InvalidUrl(url) => "The URL '"@ + url@ + "' is not a valid YouTube URL"@,
        DownloaderError::VideoNotFound => "Video not found or is not available (may be private or deleted)"@,
        DownloaderError::NoFormatsFound => "No downloadable formats found for this video"@,
        DownloaderError::Network(info) => if info.timeout {
            "Network timeout - please check your internet connection"@
        } else if info.connect {
            "Failed to connect to YouTube - please check your internet connection"@
        } else {
            "Network error: "@ + info.message@
        },
        DownloaderError::InsufficientSpace => "Not enough disk space to download this video"@,
        DownloaderError::UserCancelled => "Download cancelled by user"@,
        DownloaderError::Io(m) => "IO error: "@ + m@,
        DownloaderError::Json(m) => "JSON parsing error: "@ + m@,
        DownloaderError::Toml(m) => "TOML parsing error: "@ + m@,
        DownloaderError::UrlParse(m) => "URL parsing error: "@ + m@,
        DownloaderError::ExtractionFailed(m) => "Video extraction failed: "@ + m@,
        DownloaderError::DownloadFailed(m) => "Download failed: "@ + m@,
        DownloaderError::FileSystem(m) => "File system error: "@ + m@,
        DownloaderError::Configuration(m) => "Configuration error: "@ + m@,
        DownloaderError::ResumeFailed(m) => "Resume failed: "@ + m@,
        DownloaderError::Regex(m) => "Regex error: "@ + m@,
        DownloaderError::Unknown(m) => "Unknown error: "@ + m@,
    }
}

impl DownloaderError {
    /// Whether this failure is worth retrying.
    pub fn is_recoverable(&self) -> (r: bool)
        ensures
            r == spec_is_recoverable(*self),
    {
        match self {
            DownloaderError::Network(info) => match info.status {
                None => true,
                Some(code) => 500 <= code && code < 600,
            },
            DownloaderError::ResumeFailed(_) => true,
            DownloaderError::UserCancelled => false,
            DownloaderError::InvalidUrl(_) => false,
            DownloaderError::InsufficientSpace => false,
            DownloaderError::VideoNotFound => false,
            DownloaderError::NoFormatsFound => false,
            _ => true,
        }
    }

    /// A message for people, telling transient failures apart from
    /// permanent ones.
    pub fn user_message(&self) -> (r: String)
        ensures
            r@ == spec_user_message(*self),
    {
        match self {
            DownloaderError::InvalidUrl(url) => {
                let mut s = String::from_str("The URL '");
                s.append(url.as_str());
                s.append("' is not a valid YouTube URL");
                assert(s@ =~= spec_user_message(*self));
                s
            },
            DownloaderError::VideoNotFound => String::from_str(
                "Video not found or is not available (may be private or deleted)",
            ),
            DownloaderError::NoFormatsFound => String::from_str(
                "No downloadable formats found for this video",
            ),
            DownloaderError::Network(info) => {
                if info.timeout {
                    String::from_str("Network timeout - please check your internet connection")
                } else if info.connect {
                    String::from_str(
                        "Failed to connect to YouTube - please check your internet connection",
                    )
                } else {
                    let mut s = String::from_str("Network error: ");
                    s.append(info.message.as_str());
                    s
                }
            },
            DownloaderError::InsufficientSpace => String::from_str(
                "Not enough disk space to download this video",
            ),
            DownloaderError::UserCancelled => String::from_str("Download cancelled by user"),
            DownloaderError::Io(m) => prefixed("IO error: ", m),
            DownloaderError::Json(m) => prefixed("JSON parsing error: ", m),
            DownloaderError::Toml(m) => prefixed("TOML parsing error: ", m),
            DownloaderError::UrlParse(m) => prefixed("URL parsing error: ", m),
            DownloaderError::ExtractionFailed(m) => prefixed("Video extraction failed: ", m),
            DownloaderError::DownloadFailed(m) => prefixed("Download failed: ", m),
            DownloaderError::FileSystem(m) => prefixed("File system error: ", m),
            DownloaderError::Configuration(m) => prefixed("Configuration error: ", m),
            DownloaderError::ResumeFailed(m) => prefixed("Resume failed: ", m),
            DownloaderError::Regex(m) => prefixed("Regex error: ", m),
            DownloaderError::Unknown(m) => prefixed("Unknown error: ", m),
        }
    }
}

/// A fixed prefix followed by a detail message.
fn prefixed(prefix: &str, detail: &String) -> (r: String)
    ensures
        r@ == prefix@ + detail@,
{
    let mut s = String::from_str(prefix);
    s.append(detail.as_str());
    s
}

} // verus!
