//! Format model unit tests.

use youtube_downloader::models::{DownloadTask, Format, FormatType, VideoInfo};

#[test]
fn test_format_creation() {
    let format = Format::new(
        "1080p".to_string(),
        FormatType::Video,
        "mp4".to_string(),
        "https://example.com/video.mp4".to_string(),
    );

    assert_eq!(format.quality, "1080p");
    assert_eq!(format.format_type, FormatType::Video);
}

#[test]
fn test_quality_assessment() {
    let mut high = Format::new(
        "1080p".to_string(),
        FormatType::Video,
        "mp4".to_string(),
        "u".to_string(),
    );
    assert!(high.is_high_quality());

    high.quality = "720p".to_string();
    assert!(!high.is_high_quality());

    let mut audio = Format::new(
        "192kbps".to_string(),
        FormatType::Audio,
        "mp3".to_string(),
        "u".to_string(),
    );
    assert!(!audio.is_high_quality());
    audio.bitrate = Some(192000);
    assert!(audio.is_high_quality());
}

#[test]
fn quality_description_names_kind_and_container() {
    let video = Format::new(
        "1080p".to_string(),
        FormatType::Video,
        "mp4".to_string(),
        "u".to_string(),
    );
    assert_eq!(video.quality_description(), "1080p video (mp4)");

    let audio = Format::new(
        "128kbps".to_string(),
        FormatType::Audio,
        "mp3".to_string(),
        "u".to_string(),
    );
    assert_eq!(audio.quality_description(), "128kbps audio (mp3)");
}

#[test]
fn download_task_names_its_file() {
    let info = VideoInfo::new(
        "A Video".to_string(),
        "2:00".to_string(),
        "abcdefghijk".to_string(),
    );
    let format = Format::new(
        "720p".to_string(),
        FormatType::Video,
        "mp4".to_string(),
        "u".to_string(),
    );
    let task = DownloadTask::new(info, format, "out/video.mp4".to_string());
    assert_eq!(task.generate_filename(), "A Video [720p].mp4");
    assert_eq!(task.progress.downloaded_size, 0);
    assert!(!task.progress.is_complete);
}
