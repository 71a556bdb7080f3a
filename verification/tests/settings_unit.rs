//! Settings, network helpers, errors, file naming and argument
//! validation.

use youtube_downloader::cli::Args;
use youtube_downloader::error::{DownloaderError, NetworkErrorInfo};
use youtube_downloader::models::{Format, FormatType, VideoInfo};
use youtube_downloader::network::NetworkUtils;
use youtube_downloader::organizer::FileOrganizer;
use youtube_downloader::settings::Settings;

#[test]
fn settings_defaults() {
    let s = Settings::default();
    assert_eq!(s.max_concurrent_downloads, 4);
    assert_eq!(s.chunk_size, 1024 * 1024);
    assert_eq!(s.default_quality.as_deref(), Some("best"));
    assert!(s.auto_resume);
    assert_eq!(s.max_retries, 3);
    assert_eq!(s.request_timeout, 30);
    assert!(s.validate(true).is_empty());
}

#[test]
fn settings_warnings_name_each_problem() {
    let mut s = Settings::default();
    s.max_concurrent_downloads = 0;
    s.chunk_size = 1024;
    s.request_timeout = 2;
    let warnings = s.validate(true);
    assert_eq!(warnings.len(), 3);
    assert_eq!(warnings[0], "max_concurrent_downloads cannot be 0, using 1");
    assert_eq!(
        warnings[1],
        "chunk_size < 64KB may result in too many HTTP requests"
    );
    assert_eq!(
        warnings[2],
        "request_timeout < 5 seconds may cause timeouts on slow connections"
    );

    s.max_concurrent_downloads = 16;
    s.chunk_size = 64 * 1024 * 1024;
    s.request_timeout = 30;
    let warnings = s.validate(true);
    assert_eq!(warnings.len(), 2);
    assert_eq!(
        warnings[0],
        "max_concurrent_downloads > 8 may cause issues with some servers"
    );
    assert_eq!(warnings[1], "chunk_size > 10MB may use excessive memory");
}

#[test]
fn settings_warn_about_a_missing_output_directory() {
    let mut s = Settings::default();
    s.default_output_directory = Some("videos/out".to_string());
    let warnings = s.validate(false);
    assert_eq!(warnings.len(), 1);
    assert_eq!(warnings[0], "Output directory does not exist: videos/out");
    assert!(s.validate(true).is_empty());

    // Without a configured directory the existence bit is ignored.
    s.default_output_directory = None;
    assert!(s.validate(false).is_empty());
}

#[test]
fn settings_effective_values_are_clamped() {
    let mut s = Settings::default();
    s.max_concurrent_downloads = 0;
    s.chunk_size = 1;
    assert_eq!(s.effective_max_concurrent_downloads(), 1);
    assert_eq!(s.effective_chunk_size(), 64 * 1024);
    s.chunk_size = 64 * 1024 * 1024;
    assert_eq!(s.effective_chunk_size(), 10 * 1024 * 1024);
    // The hard ceiling of eight workers holds here as in the engine.
    s.max_concurrent_downloads = 10;
    assert_eq!(s.effective_max_concurrent_downloads(), 8);
    s.max_concurrent_downloads = 6;
    s.chunk_size = 2 * 1024 * 1024;
    assert_eq!(s.effective_max_concurrent_downloads(), 6);
    assert_eq!(s.effective_chunk_size(), 2 * 1024 * 1024);
}

#[test]
fn range_headers_render_both_forms() {
    assert_eq!(
        NetworkUtils::create_range_headers(0, Some(1_999_999)),
        "bytes=0-1999999"
    );
    assert_eq!(NetworkUtils::create_range_headers(2_000_000, None), "bytes=2000000-");
}

#[test]
fn content_length_parsing() {
    assert_eq!(NetworkUtils::get_file_size(Some("12345")), Some(12345));
    assert_eq!(NetworkUtils::get_file_size(Some("+7")), Some(7));
    assert_eq!(NetworkUtils::get_file_size(Some("")), None);
    assert_eq!(NetworkUtils::get_file_size(Some("12x")), None);
    assert_eq!(NetworkUtils::get_file_size(Some("99999999999999999999999")), None);
    assert_eq!(NetworkUtils::get_file_size(None), None);
}

#[test]
fn accept_ranges_header_decides_range_support() {
    assert!(NetworkUtils::supports_range_requests(Some("bytes")));
    assert!(NetworkUtils::supports_range_requests(Some("none, bytes")));
    assert!(!NetworkUtils::supports_range_requests(Some("none")));
    assert!(!NetworkUtils::supports_range_requests(None));
}

#[test]
fn error_recoverability_classification() {
    let server = DownloaderError::Network(NetworkErrorInfo {
        status: Some(503),
        timeout: false,
        connect: false,
        message: "service unavailable".to_string(),
    });
    assert!(server.is_recoverable());

    let not_found = DownloaderError::Network(NetworkErrorInfo {
        status: Some(404),
        timeout: false,
        connect: false,
        message: "not found".to_string(),
    });
    assert!(!not_found.is_recoverable());

    let no_status = DownloaderError::Network(NetworkErrorInfo {
        status: None,
        timeout: true,
        connect: false,
        message: "timed out".to_string(),
    });
    assert!(no_status.is_recoverable());

    assert!(DownloaderError::ResumeFailed("x".to_string()).is_recoverable());
    assert!(!DownloaderError::UserCancelled.is_recoverable());
    assert!(!DownloaderError::InvalidUrl("u".to_string()).is_recoverable());
    assert!(!DownloaderError::InsufficientSpace.is_recoverable());
    assert!(!DownloaderError::VideoNotFound.is_recoverable());
    assert!(!DownloaderError::NoFormatsFound.is_recoverable());
    assert!(DownloaderError::DownloadFailed("x".to_string()).is_recoverable());
}

#[test]
fn error_messages_for_people() {
    let e = DownloaderError::InvalidUrl("htp:/x".to_string());
    assert_eq!(e.user_message(), "The URL 'htp:/x' is not a valid YouTube URL");

    let timeout = DownloaderError::Network(NetworkErrorInfo {
        status: None,
        timeout: true,
        connect: false,
        message: "t".to_string(),
    });
    assert_eq!(
        timeout.user_message(),
        "Network timeout - please check your internet connection"
    );
    assert_eq!(
        DownloaderError::InsufficientSpace.user_message(),
        "Not enough disk space to download this video"
    );
    assert_eq!(
        DownloaderError::DownloadFailed("boom".to_string()).user_message(),
        "Download failed: boom"
    );
}

#[test]
fn filenames_carry_title_quality_and_extension() {
    let info = VideoInfo::new(
        "My: Video?".to_string(),
        "3:25".to_string(),
        "dQw4w9WgXcQ".to_string(),
    );
    let format = Format::new(
        "1080p".to_string(),
        FormatType::Video,
        "mp4".to_string(),
        "u".to_string(),
    );
    assert_eq!(
        FileOrganizer::generate_filename(&info, &format),
        "My_ Video_ [1080p].mp4"
    );
    assert!(FileOrganizer::check_disk_space(1000, 999));
    assert!(!FileOrganizer::check_disk_space(998, 999));
}

#[test]
fn args_validation_rejects_bad_input_fast() {
    let good = Args {
        url: "https://youtu.be/dQw4w9WgXcQ".to_string(),
        output: Some("downloads".to_string()),
        auto: false,
        audio_only: false,
        verbose: false,
    };
    assert!(good.validate().is_ok());

    let bad_url = Args {
        url: "https://example.com".to_string(),
        output: None,
        auto: false,
        audio_only: false,
        verbose: false,
    };
    assert!(bad_url.validate().is_err());

    let bad_output = Args {
        url: "https://youtu.be/dQw4w9WgXcQ".to_string(),
        output: Some("bad|dir".to_string()),
        auto: false,
        audio_only: false,
        verbose: false,
    };
    assert!(bad_output.validate().is_err());
}

#[test]
fn video_info_collects_formats() {
    let mut info = VideoInfo::new("T".to_string(), "1:00".to_string(), "id123456789".to_string());
    info.add_format(Format::new(
        "1080p".to_string(),
        FormatType::Video,
        "mp4".to_string(),
        "u".to_string(),
    ));
    info.add_format(Format::new(
        "128kbps".to_string(),
        FormatType::Audio,
        "mp3".to_string(),
        "u".to_string(),
    ));
    let video = info.get_formats_by_type(&FormatType::Video);
    assert_eq!(video.len(), 1);
    assert_eq!(video[0].quality, "1080p");
}
