use clx_music::api::{
    app_info_url, check_bytes_response, check_json_response, cover_bytes_accepted,
    head_content_length, is_error_status, music_cover_jpeg_url, music_list_url,
    music_lyrics_url, music_mp3_url, music_notation_url, parse_content_range_total,
    parse_length_header, prefix_range_header, ranged_total, remainder_needed,
    remainder_range_header, remainder_step, resolve_base_url, RemainderStep,
    MAX_MUSIC_DOWNLOAD_BYTES,
};

#[test]
fn cover_url_drops_trailing_slashes() {
    assert_eq!(music_cover_jpeg_url("https://a.b//", 42), "https://a.b/music/42/music.jpg");
    assert_eq!(music_cover_jpeg_url("https://a.b", -7), "https://a.b/music/-7/music.jpg");
    assert_eq!(music_mp3_url("http://h/", 0), "http://h/music/0/music.mp3");
    assert_eq!(
        music_cover_jpeg_url("", i64::MIN),
        "/music/-9223372036854775808/music.jpg"
    );
}

#[test]
fn api_urls_keep_the_base_as_given() {
    assert_eq!(music_list_url("https://x"), "https://x/v3/music");
    assert_eq!(app_info_url("https://x/"), "https://x//v3/app");
    assert_eq!(music_lyrics_url("https://x", 12), "https://x/v3/music/12/lyrics");
    assert_eq!(music_notation_url("b", 3), "b/v3/music/3/notation");
}

#[test]
fn base_url_is_trimmed_or_empty() {
    assert_eq!(resolve_base_url(Some("  https://x \n")), "https://x");
    assert_eq!(resolve_base_url(None), "");
}

#[test]
fn error_statuses() {
    assert!(!is_error_status(200));
    assert!(!is_error_status(304));
    assert!(is_error_status(400));
    assert!(is_error_status(404));
    assert!(is_error_status(599));
    assert!(!is_error_status(600));
}

#[test]
fn json_error_keeps_start_of_body() {
    assert_eq!(check_json_response(200, "{}"), Ok(()));
    assert_eq!(check_json_response(404, "not found"), Err("HTTP 404: not found".to_string()));
    let long: String = "界".repeat(200);
    let expected = format!("HTTP 500: {}", "界".repeat(160));
    assert_eq!(check_json_response(500, &long), Err(expected));
}

#[test]
fn download_status() {
    assert_eq!(check_bytes_response(206), Ok(()));
    assert_eq!(check_bytes_response(503), Err("HTTP 503".to_string()));
}

#[test]
fn head_length() {
    assert_eq!(head_content_length(200, Some(" 1234 ")), Ok(Some(1234)));
    assert_eq!(head_content_length(200, Some("+7")), Ok(Some(7)));
    assert_eq!(head_content_length(200, Some("-7")), Ok(None));
    assert_eq!(head_content_length(200, Some("18446744073709551616")), Ok(None));
    assert_eq!(
        head_content_length(200, Some("18446744073709551615")),
        Ok(Some(u64::MAX))
    );
    assert_eq!(head_content_length(200, None), Ok(None));
    assert_eq!(head_content_length(403, Some("5")), Err("HEAD HTTP 403".to_string()));
    assert_eq!(parse_length_header(Some("abc")), None);
}

#[test]
fn content_range_total() {
    assert_eq!(parse_content_range_total("bytes 0-99/1234"), Some(1234));
    assert_eq!(parse_content_range_total("  bytes 0-99/ 1234 "), Some(1234));
    assert_eq!(parse_content_range_total("bytes 0-99/*"), None);
    assert_eq!(parse_content_range_total("bytes */1000"), Some(1000));
    assert_eq!(parse_content_range_total("items 0-1/2"), None);
    assert_eq!(parse_content_range_total("bytes 0-99"), None);
}

#[test]
fn ranged_total_prefers_content_range() {
    assert_eq!(ranged_total(Some("bytes 0-9/100"), Some("10")), Some(100));
    assert_eq!(ranged_total(Some("bytes 0-9/*"), Some("10")), Some(10));
    assert_eq!(ranged_total(None, Some("10")), Some(10));
    assert_eq!(ranged_total(None, None), None);
}

#[test]
fn range_headers() {
    assert_eq!(prefix_range_header(524288), "bytes=0-524287");
    assert_eq!(prefix_range_header(0), "bytes=0-0");
    assert_eq!(remainder_range_header(524288), "bytes=524288-");
}

#[test]
fn remainder_decisions() {
    assert!(!remainder_needed(100, Some(100)));
    assert!(remainder_needed(99, Some(100)));
    assert!(remainder_needed(5, None));
    assert!(matches!(remainder_step(0, 10, 0, None), RemainderStep::Done));
    assert!(matches!(remainder_step(10, 50, 50, Some(100)), RemainderStep::Done));
    assert!(matches!(remainder_step(10, 40, 50, Some(100)), RemainderStep::Continue));
    assert!(matches!(
        remainder_step(10, MAX_MUSIC_DOWNLOAD_BYTES + 1, 0, None),
        RemainderStep::TooLarge
    ));
}

#[test]
fn cover_bytes_must_start_like_jpeg() {
    assert!(cover_bytes_accepted(&[0xFF, 0xD8, 0xFF]));
    assert!(!cover_bytes_accepted(&[0xFF, 0xD8]));
    assert!(!cover_bytes_accepted(&[0x89, 0x50, 0x4E, 0x47]));
}
