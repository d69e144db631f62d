use idr::comments::clear_blank_lines;
use idr::comments::collapse_newlines;
use idr::comments::remove_comments;
use idr::idr::strip_html_comments;
use idr::template::TEMPLATE;
use idr::text::chars_of;
use idr::text::is_whitespace;
use idr::text::string_of;
use idr::text::trim_chars;

fn by_patterns(text: &str) -> String {
    let comments = regex::Regex::new(r"(?s)<!--.*?-->").unwrap();
    let result = comments.replace_all(text, "").to_string();
    let blank = regex::Regex::new(r"(?m)^\s+$").unwrap();
    let result = blank.replace_all(&result, "").to_string();
    let newlines = regex::Regex::new(r"\n{3,}").unwrap();
    let result = newlines.replace_all(&result, "\n\n").to_string();
    result.trim().to_string()
}

fn pass(text: &str, f: fn(&Vec<char>) -> Vec<char>) -> String {
    string_of(&f(&chars_of(text)))
}

#[test]
fn strip_empty_input() {
    assert_eq!(strip_html_comments(""), "");
}

#[test]
fn strip_only_comments() {
    assert_eq!(strip_html_comments("<!-- a --><!-- b -->\n<!--\nc\n-->"), "");
}

#[test]
fn strip_adjacent_comments_one_by_one() {
    assert_eq!(strip_html_comments("a<!-- x -->b<!-- y -->c"), "abc");
}

#[test]
fn strip_keeps_unclosed_opening() {
    assert_eq!(strip_html_comments("a <!-- never closed"), "a <!-- never closed");
}

#[test]
fn strip_needs_closing_after_opening() {
    // `-->` must start after the whole of `<!--`
    assert_eq!(strip_html_comments("<!-->"), "<!-->");
    assert_eq!(strip_html_comments("<!--->"), "<!--->");
    assert_eq!(strip_html_comments("<!---->"), "");
    assert_eq!(strip_html_comments("x<!-->y-->z"), "xz");
}

#[test]
fn strip_closes_at_nearest() {
    assert_eq!(strip_html_comments("a<!-- b --> c --> d"), "a c --> d");
}

#[test]
fn strip_twice_is_strip_once() {
    let inputs = [
        "",
        "Hello <!-- comment --> World",
        "Line 1\n<!-- This is a\nmultiline\ncomment -->\nLine 2",
        "   \n\nContent\n\n   ",
        "a\n \t \n\n\n  b  \n<!-- c -->\n\n\n",
        "\u{a0}x\u{2003}\n\u{3000}\ny\u{85}",
        TEMPLATE,
    ];
    for input in inputs {
        let once = strip_html_comments(input);
        assert_eq!(strip_html_comments(&once), once);
    }
}

#[test]
fn strip_can_uncover_a_comment() {
    // taking one comment out can bring an opening and a closing together
    let once = strip_html_comments("<!<!---->-- x -->");
    assert_eq!(once, "<!-- x -->");
    assert_eq!(strip_html_comments(&once), "");
}

#[test]
fn strip_agrees_with_patterns() {
    let inputs = [
        "",
        "Just plain text",
        "Hello <!-- comment --> World",
        "Line 1\n<!-- This is a\nmultiline\ncomment -->\nLine 2",
        "Start\n<!-- Comment 1 -->\nMiddle\n<!-- Comment 2 -->\nEnd",
        "Line 1\n\n\n\n\nLine 2",
        "   \n\nContent\n\n   ",
        "a\n \n \nb",
        "a \n\t\n b",
        "a\r\n\r\n\r\nb",
        "\n\n\na\n\n\n",
        "a\n\u{a0}\u{2003}\nb\u{3000}",
        "<!-->",
        "x<!-->y-->z",
        "<!<!---->-- x -->",
        "a <!-- never closed\n\n\n\nb",
        "a\u{b}\u{c}\n\u{b}\n\nb",
        TEMPLATE,
    ];
    for input in inputs {
        assert_eq!(strip_html_comments(input), by_patterns(input), "on {:?}", input);
    }
}

#[test]
fn strip_template_leaves_headings() {
    let bare = strip_html_comments(TEMPLATE);
    assert!(!bare.contains("<!--"));
    assert!(!bare.contains("\n\n\n"));
    assert!(bare.starts_with("# {{ date }}: {{ title }}\n\nOwner: {{ owner }}\n\n## Overview\n\n## Context"));
    assert!(bare.ends_with("## Open Questions"));
}

#[test]
fn remove_comments_leaves_the_rest() {
    assert_eq!(pass("a <!-- b --> \n c", remove_comments), "a  \n c");
    assert_eq!(pass("no comment here", remove_comments), "no comment here");
}

#[test]
fn clear_blank_lines_empties_whitespace_lines() {
    assert_eq!(pass("a\n  \t\nb", clear_blank_lines), "a\n\nb");
    assert_eq!(pass("  \na  \n ", clear_blank_lines), "\na  \n");
    assert_eq!(pass("a\n\n\nb", clear_blank_lines), "a\n\n\nb");
}

#[test]
fn collapse_newlines_cuts_runs_to_two() {
    assert_eq!(pass("a\n\n\nb", collapse_newlines), "a\n\nb");
    assert_eq!(pass("a\n\n\n\n\n\nb\n\n\n", collapse_newlines), "a\n\nb\n\n");
    assert_eq!(pass("a\n\nb\nc", collapse_newlines), "a\n\nb\nc");
}

#[test]
fn trim_chars_cuts_both_ends() {
    assert_eq!(pass("  \n a b \t\n", trim_chars), "a b");
    assert_eq!(pass(" \u{a0}\u{2003} ", trim_chars), "");
    assert_eq!(pass("\u{3000}x\u{85}", trim_chars), "x");
    assert_eq!(pass("x", trim_chars), "x");
}

#[test]
fn whitespace_is_what_std_calls_whitespace() {
    let mut code: u32 = 0;
    while code <= 0x10ffff {
        if let Some(c) = char::from_u32(code) {
            assert_eq!(is_whitespace(c), c.is_whitespace(), "at {:x}", code);
        }
        code += 1;
    }
    assert!(!is_whitespace('\u{feff}'));
    assert!(!is_whitespace('\u{200b}'));
}
