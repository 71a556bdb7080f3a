//! Format extraction from player-response JSON, filtering and
//! ordering.

use youtube_downloader::extractor::{
    compare_video_quality, decode_html_entities, filter_formats, format_duration,
    parse_single_format, FormatExtractor, FormatFields,
};
use youtube_downloader::models::{Format, FormatType};

fn fields() -> FormatFields {
    FormatFields {
        url: Some("https://example.com/stream".to_string()),
        mime_type: Some("video/mp4; codecs=\"avc1\"".to_string()),
        height: Some(1080),
        quality_label: Some("1080p60".to_string()),
        average_bitrate: Some(2_500_000),
        content_length: Some("123456".to_string()),
        codec: Some("avc1".to_string()),
    }
}

#[test]
fn parse_single_format_reads_video_fields() {
    let fmt = parse_single_format(&fields()).unwrap();
    assert_eq!(fmt.format_type, FormatType::Video);
    assert_eq!(fmt.file_extension, "mp4");
    assert_eq!(fmt.quality, "1080p");
    assert_eq!(fmt.download_url, "https://example.com/stream");
    assert_eq!(fmt.file_size, Some(123456));
    assert_eq!(fmt.bitrate, Some(2_500_000));
    assert_eq!(fmt.codec.as_deref(), Some("avc1"));
}

#[test]
fn parse_single_format_rejects_and_classifies() {
    let mut f = fields();
    f.url = None;
    assert!(parse_single_format(&f).is_none());

    let mut audio = fields();
    audio.mime_type = Some("audio/webm".to_string());
    audio.average_bitrate = Some(128_000);
    let fmt = parse_single_format(&audio).unwrap();
    assert_eq!(fmt.format_type, FormatType::Audio);
    assert_eq!(fmt.file_extension, "mp3");
    assert_eq!(fmt.quality, "128kbps");

    let mut webm = fields();
    webm.mime_type = Some("video/webm".to_string());
    assert!(parse_single_format(&webm).is_none());

    let mut label_only = fields();
    label_only.height = None;
    let fmt = parse_single_format(&label_only).unwrap();
    assert_eq!(fmt.quality, "1080p60");
}

#[test]
fn parse_formats_walks_the_player_response() {
    let text = "{\"streamingData\":{\"adaptiveFormats\":[{\"url\":\"https://e/a\",\"mimeType\":\"audio/mp4\",\"averageBitrate\":131072},{\"url\":\"https://e/v\",\"mimeType\":\"video/mp4\",\"height\":720,\"contentLength\":\"555\"}],\"formats\":[{\"url\":\"https://e/c\",\"mimeType\":\"video/mp4\",\"height\":360}]}}";
    let json: serde_json::Value = serde_json::from_str(text).unwrap();
    let formats = FormatExtractor::parse_formats(&json).unwrap();
    assert_eq!(formats.len(), 3);
    assert_eq!(formats[0].quality, "131kbps");
    assert_eq!(formats[1].quality, "720p");
    assert_eq!(formats[1].file_size, Some(555));
    assert_eq!(formats[2].quality, "360p");

    let empty: serde_json::Value = serde_json::from_str("{}").unwrap();
    assert!(FormatExtractor::parse_formats(&empty).is_err());
}

fn format(quality: &str, kind: FormatType, ext: &str, bitrate: Option<u32>) -> Format {
    let mut f = Format::new(
        quality.to_string(),
        kind,
        ext.to_string(),
        "u".to_string(),
    );
    f.bitrate = bitrate;
    f
}

#[test]
fn filter_formats_keeps_mp4_video_and_sorts_best_first() {
    let formats = vec![
        format("128kbps", FormatType::Audio, "mp3", Some(128_000)),
        format("360p", FormatType::Video, "mp4", None),
        format("1080p", FormatType::Video, "webm", None),
        format("720p", FormatType::Video, "mp4", None),
        format("256kbps", FormatType::Audio, "mp3", Some(256_000)),
    ];
    let kept = filter_formats(formats);
    let qualities: Vec<&str> = kept.iter().map(|f| f.quality.as_str()).collect();
    assert_eq!(qualities, vec!["720p", "360p", "256kbps", "128kbps"]);
}

#[test]
fn sort_by_quality_orders_video_then_audio() {
    let mut formats = vec![
        format("480p", FormatType::Video, "mp4", None),
        format("64kbps", FormatType::Audio, "mp3", Some(64_000)),
        format("1080p", FormatType::Video, "mp4", None),
    ];
    FormatExtractor::sort_by_quality(&mut formats);
    let qualities: Vec<&str> = formats.iter().map(|f| f.quality.as_str()).collect();
    assert_eq!(qualities, vec!["1080p", "480p", "64kbps"]);
}

#[test]
fn filter_by_type_splits_kinds() {
    let formats = vec![
        format("1080p", FormatType::Video, "mp4", None),
        format("128kbps", FormatType::Audio, "mp3", None),
    ];
    let audio = FormatExtractor::filter_by_type(&formats, FormatType::Audio);
    assert_eq!(audio.len(), 1);
    assert_eq!(audio[0].quality, "128kbps");
}

#[test]
fn video_quality_comparison_is_descending() {
    assert_eq!(
        compare_video_quality("1080p", "720p"),
        std::cmp::Ordering::Less
    );
    assert_eq!(
        compare_video_quality("480p", "480p"),
        std::cmp::Ordering::Equal
    );
    assert_eq!(
        compare_video_quality("360p", "720p"),
        std::cmp::Ordering::Greater
    );
}

#[test]
fn durations_render_like_clocks() {
    assert_eq!(format_duration(59), "0:59");
    assert_eq!(format_duration(61), "1:01");
    assert_eq!(format_duration(3661), "1:01:01");
}

#[test]
fn html_entities_decode_in_sequence() {
    assert_eq!(decode_html_entities("a &amp; b"), "a & b");
    assert_eq!(decode_html_entities("&lt;tag&gt;"), "<tag>");
    assert_eq!(decode_html_entities("&quot;x&quot; &#39;y&apos;"), "\"x\" 'y'");
    // Chained replacement: &amp;lt; first becomes &lt;, then <.
    assert_eq!(decode_html_entities("&amp;lt;"), "<");
}
