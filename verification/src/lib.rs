//! A resumable, chunked download engine with verified planning, resume,
//! progress and retry logic, together with the models and validation
//! helpers of a small video downloader.

pub mod chunk;
pub mod cli;
pub mod error;
pub mod extractor;
pub mod jsonval;
pub mod manager;
pub mod models;
pub mod network;
pub mod organizer;
pub mod progress;
pub mod resume;
pub mod retry;
pub mod settings;
pub mod strutil;
pub mod validation;

pub use error::DownloaderError;
pub use models::{DownloadTask, Format, VideoInfo};
