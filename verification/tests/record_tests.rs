use std::path::Path;
use std::path::PathBuf;

use idr::create_idr;
use idr::git::Env;
use idr::idr::get_idr_filename;
use idr::idr::name_file;
use idr::idr::place_file;
use idr::idr::render_idr_template;
use idr::template::render_outcome;
use idr::time::Timestamp;
use idr::wants_no_comments;

fn christmas() -> Timestamp {
    Timestamp::new(2026, 12, 25, 15, 45).unwrap()
}

fn well_named(name: &str) -> bool {
    let pattern = regex::Regex::new(r"^\d{12}-[a-z0-9-]+\.md$").unwrap();
    let slug = &name[13..name.len() - 3];
    pattern.is_match(name) && !slug.starts_with('-') && !slug.ends_with('-')
}

#[test]
fn timestamp_takes_the_days_of_the_calendar() {
    assert!(Timestamp::new(2024, 2, 29, 0, 0).is_some());
    assert!(Timestamp::new(2023, 2, 29, 0, 0).is_none());
    assert!(Timestamp::new(2000, 2, 29, 0, 0).is_some());
    assert!(Timestamp::new(1900, 2, 29, 0, 0).is_none());
    assert!(Timestamp::new(2026, 4, 31, 0, 0).is_none());
    assert!(Timestamp::new(2026, 12, 31, 23, 59).is_some());
    assert!(Timestamp::new(0, 1, 1, 0, 0).is_some());
    assert!(Timestamp::new(9999, 12, 31, 23, 59).is_some());
}

#[test]
fn timestamp_refuses_what_is_out_of_range() {
    assert!(Timestamp::new(-1, 1, 1, 0, 0).is_none());
    assert!(Timestamp::new(10000, 1, 1, 0, 0).is_none());
    assert!(Timestamp::new(2026, 0, 1, 0, 0).is_none());
    assert!(Timestamp::new(2026, 13, 1, 0, 0).is_none());
    assert!(Timestamp::new(2026, 1, 0, 0, 0).is_none());
    assert!(Timestamp::new(2026, 1, 32, 0, 0).is_none());
    assert!(Timestamp::new(2026, 1, 1, 24, 0).is_none());
    assert!(Timestamp::new(2026, 1, 1, -1, 0).is_none());
    assert!(Timestamp::new(2026, 1, 1, 0, 60).is_none());
    assert!(Timestamp::new(2026, 1, 1, 0, -1).is_none());
}

#[test]
fn timestamp_gives_its_parts_back() {
    let t = christmas();
    assert_eq!(
        (t.year(), t.month(), t.day(), t.hour(), t.minute()),
        (2026, 12, 25, 15, 45)
    );
}

#[test]
fn timestamp_writes_with_leading_zeros() {
    let t = Timestamp::new(7, 3, 4, 5, 6).unwrap();
    assert_eq!(t.stamp(), "000703040506");
    assert_eq!(t.date(), "0007-03-04");
    assert_eq!(christmas().stamp(), "202612251545");
    assert_eq!(christmas().date(), "2026-12-25");
    assert_eq!(Timestamp::new(9999, 12, 31, 23, 59).unwrap().stamp(), "999912312359");
}

#[test]
fn filename_is_the_same_each_time() {
    let first = get_idr_filename("Ünïcode Títle — now", christmas());
    let second = get_idr_filename("Ünïcode Títle — now", christmas());
    assert_eq!(first, second);
    assert_eq!(first, "202612251545-unicode-title-now.md");
}

#[test]
fn filename_is_well_named() {
    for title in ["My Test IDR", "Hello & World!", "  --test_-_cool", "a", "Æúű--cool?", "2 + 2"] {
        let name = get_idr_filename(title, christmas());
        assert!(well_named(&name), "{:?}", name);
    }
}

#[test]
fn filename_of_a_title_without_letters_has_no_slug() {
    assert_eq!(get_idr_filename("!!!", christmas()), "202612251545-.md");
    assert_eq!(get_idr_filename("", christmas()), "202612251545-.md");
}

#[test]
fn name_file_puts_the_parts_together() {
    assert_eq!(name_file("202601051430", "test"), "202601051430-test.md");
    assert_eq!(name_file("", ""), "-.md");
}

#[test]
fn place_file_goes_by_the_idrs_directory() {
    let base = Path::new("/tmp/test");
    let filename = "202601051430-test.md".to_string();
    assert_eq!(
        place_file(base, true, filename.clone()),
        PathBuf::from("/tmp/test/idrs/202601051430-test.md")
    );
    assert_eq!(
        place_file(base, false, filename),
        PathBuf::from("/tmp/test/202601051430-test.md")
    );
}

#[test]
fn render_puts_the_heading_first() {
    let text = render_idr_template("Test Title", "Test User <test@example.com>", christmas())
        .unwrap();
    assert_eq!(text.lines().next(), Some("# 2026-12-25: Test Title"));
    assert!(text.lines().any(|line| line == "Owner: Test User <test@example.com>"));
    assert!(text.lines().any(|line| line == "## Overview"));
    assert!(text.contains("<!--"));
}

#[test]
fn render_does_not_escape_or_expand_values() {
    let text = render_idr_template("{{ owner }} & <b>", "a \"b\" <c@d>", christmas()).unwrap();
    assert_eq!(text.lines().next(), Some("# 2026-12-25: {{ owner }} & <b>"));
    assert!(text.contains("Owner: a \"b\" <c@d>\n"));
}

#[test]
fn render_outcome_hands_the_text_on() {
    let outcome = render_outcome(Ok("text".to_string()));
    assert_eq!(outcome.unwrap(), "text");
}

#[test]
fn render_outcome_reports_the_engine_error() {
    let rejected = minijinja::Environment::new().render_str("{{ unclosed", ());
    assert!(rejected.is_err());
    let outcome = render_outcome(rejected);
    let error = outcome.unwrap_err();
    assert!(!error.message.is_empty());
}

#[test]
fn wants_no_comments_is_flag_or_variable() {
    let mut env = Env::new();
    assert!(!wants_no_comments(false, &env));
    assert!(wants_no_comments(true, &env));
    env.set("IDR_NO_COMMENTS", "");
    assert!(wants_no_comments(false, &env));
    assert!(wants_no_comments(true, &env));
}

#[test]
fn create_idr_with_comments() {
    let record = create_idr(
        PathBuf::from("/tmp/test"),
        "My Test IDR",
        false,
        christmas(),
        Some("Test User <test@example.com>".to_string()),
    )
    .unwrap();
    assert_eq!(
        record.path,
        PathBuf::from("/tmp/test/202612251545-my-test-idr.md")
    );
    assert!(record.body.starts_with("# 2026-12-25: My Test IDR\n"));
    assert!(record.body.contains("Owner: Test User <test@example.com>\n"));
    assert!(record.body.contains("<!--"));
}

#[test]
fn create_idr_without_comments_or_owner() {
    let record = create_idr(PathBuf::from("/tmp/test"), "My Test IDR", true, christmas(), None)
        .unwrap();
    assert!(record.body.starts_with(
        "# 2026-12-25: My Test IDR\n\nOwner: Unknown <unknown>\n\n## Overview\n\n## Context"
    ));
    assert!(!record.body.contains("<!--"));
    assert!(!record.body.contains("\n\n\n"));
    assert_eq!(record.body, record.body.trim());
}
