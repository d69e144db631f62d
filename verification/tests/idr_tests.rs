use std::path::Path;

use idr::idr::get_idr_filename;
use idr::idr::get_idr_path;
use idr::idr::render_idr_template;
use idr::idr::strip_html_comments;
use idr::time::Timestamp;

fn minute_of(instant: jiff::Timestamp) -> Timestamp {
    let utc = jiff::tz::Offset::UTC.to_datetime(instant);
    Timestamp::new(utc.year(), utc.month(), utc.day(), utc.hour(), utc.minute()).unwrap()
}

#[test]
fn test_get_idr_filename() {
    // Create a timestamp: 2026-12-25 15:45:00 UTC
    let timestamp = "2026-12-25T15:45:00Z".parse::<jiff::Timestamp>().unwrap();
    let filename = get_idr_filename("My Test IDR", minute_of(timestamp));
    assert_eq!(filename, "202612251545-my-test-idr.md");
}

#[test]
fn test_get_idr_filename_special_chars() {
    let timestamp = "2026-12-25T15:45:00Z".parse::<jiff::Timestamp>().unwrap();
    let filename = get_idr_filename("Hello & World!", minute_of(timestamp));
    assert_eq!(filename, "202612251545-hello-world.md");
}

#[test]
fn test_get_idr_path_without_idrs_dir() {
    // When idrs/ doesn't exist, should return base path + filename
    let base = Path::new("/tmp/test");
    let filename = "202601051430-test.md".to_string();
    let result = get_idr_path(base, filename.clone());
    assert_eq!(result, base.join(filename));
}

#[test]
fn test_strip_html_comments_simple() {
    let input = "Hello <!-- comment --> World";
    let output = strip_html_comments(input);
    assert_eq!(output, "Hello  World");
}

#[test]
fn test_strip_html_comments_multiline() {
    let input = r#"Line 1
<!-- This is a
multiline
comment -->
Line 2"#;
    let output = strip_html_comments(input);
    assert_eq!(output, "Line 1\n\nLine 2");
}

#[test]
fn test_strip_html_comments_multiple() {
    let input = r#"Start
<!-- Comment 1 -->
Middle
<!-- Comment 2 -->
End"#;
    let output = strip_html_comments(input);
    assert_eq!(output, "Start\n\nMiddle\n\nEnd");
}

#[test]
fn test_strip_html_comments_collapse_blank_lines() {
    let input = "Line 1\n\n\n\n\nLine 2";
    let output = strip_html_comments(input);
    assert_eq!(output, "Line 1\n\nLine 2");
}

#[test]
fn test_strip_html_comments_trim_whitespace() {
    let input = "   \n\nContent\n\n   ";
    let output = strip_html_comments(input);
    assert_eq!(output, "Content");
}

#[test]
fn test_strip_html_comments_no_comments() {
    let input = "Just plain text";
    let output = strip_html_comments(input);
    assert_eq!(output, "Just plain text");
}

#[test]
fn test_render_idr_template() {
    let timestamp = "2026-01-12T12:00:00Z".parse::<jiff::Timestamp>().unwrap();
    let result = render_idr_template(
        "Test Title",
        "Test User <test@example.com>",
        minute_of(timestamp),
    );

    assert!(result.is_ok());
    let content = result.unwrap();
    assert!(content.contains("# 2026-01-12: Test Title"));
    assert!(content.contains("Owner: Test User <test@example.com>"));
    assert!(content.contains("## Overview"));
}
