//! URL validation behaviour.

use youtube_downloader::validation::UrlValidator;

#[test]
fn validation_test_valid_youtube_urls() {
    let valid_urls = [
        "https://www.youtube.com/watch?v=dQw4w9WgXcQ",
        "https://youtube.com/watch?v=dQw4w9WgXcQ",
        "https://youtu.be/dQw4w9WgXcQ",
        "https://www.youtube.com/embed/dQw4w9WgXcQ",
        "https://www.youtube.com/v/dQw4w9WgXcQ",
    ];

    for url in &valid_urls {
        assert!(
            UrlValidator::is_valid_youtube_url(url),
            "Should be valid: {}",
            url
        );
    }
}

#[test]
fn validation_test_invalid_youtube_urls() {
    let invalid_urls = [
        "https://example.com",
        "not-a-url",
        "https://vimeo.com/123456",
        "https://youtube.com/watch?v=invalidid",
        "https://youtube.com/watch?v=",
    ];

    for url in &invalid_urls {
        assert!(
            !UrlValidator::is_valid_youtube_url(url),
            "Should be invalid: {}",
            url
        );
    }
}

#[test]
fn validation_test_video_id_extraction() {
    let test_cases = [
        ("https://www.youtube.com/watch?v=dQw4w9WgXcQ", "dQw4w9WgXcQ"),
        ("https://youtu.be/dQw4w9WgXcQ", "dQw4w9WgXcQ"),
        ("https://www.youtube.com/embed/dQw4w9WgXcQ", "dQw4w9WgXcQ"),
    ];

    for (url, expected_id) in &test_cases {
        let result = UrlValidator::extract_video_id(url);
        assert!(result.is_ok(), "Should extract ID from: {}", url);
        assert_eq!(result.unwrap(), *expected_id);
    }
}

#[test]
fn normalize_url_produces_canonical_form() {
    let normalized = UrlValidator::normalize_url("https://youtu.be/dQw4w9WgXcQ").unwrap();
    assert_eq!(normalized, "https://www.youtube.com/watch?v=dQw4w9WgXcQ");
    assert!(UrlValidator::normalize_url("https://example.com").is_err());
}

#[test]
fn output_path_rules() {
    assert!(UrlValidator::is_valid_output_path("videos/music"));
    assert!(!UrlValidator::is_valid_output_path(""));
    assert!(!UrlValidator::is_valid_output_path("bad|name"));
    assert!(!UrlValidator::is_valid_output_path("CON"));
    assert!(!UrlValidator::is_valid_output_path("com1.mp4"));
    assert!(!UrlValidator::is_valid_output_path("ends with space "));
    assert!(!UrlValidator::is_valid_output_path("ends.with.dot."));
}

#[test]
fn sanitize_filename_replaces_and_trims() {
    assert_eq!(UrlValidator::sanitize_filename("a<b>c:d"), "a_b_c_d");
    assert_eq!(UrlValidator::sanitize_filename("name. . "), "name");
    assert_eq!(UrlValidator::sanitize_filename("..."), "video");
    assert_eq!(UrlValidator::sanitize_filename("a/b\\c"), "a_b_c");
    let long = "x".repeat(300);
    assert_eq!(UrlValidator::sanitize_filename(&long).len(), 200);
}
