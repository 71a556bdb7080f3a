//! URL validation unit tests.

use youtube_downloader::validation::UrlValidator;

#[test]
fn validation_tests_test_valid_youtube_urls() {
    assert!(UrlValidator::is_valid_youtube_url(
        "https://www.youtube.com/watch?v=dQw4w9WgXcQ"
    ));
    assert!(UrlValidator::is_valid_youtube_url("https://youtu.be/dQw4w9WgXcQ"));
}

#[test]
fn validation_tests_test_invalid_youtube_urls() {
    assert!(!UrlValidator::is_valid_youtube_url("https://example.com"));
    assert!(!UrlValidator::is_valid_youtube_url("not-a-url"));
}

#[test]
fn validation_tests_test_video_id_extraction() {
    let id = UrlValidator::extract_video_id("https://www.youtube.com/v/dQw4w9WgXcQ").unwrap();
    assert_eq!(id, "dQw4w9WgXcQ");
}
