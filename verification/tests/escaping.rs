//! Exact expected values for the JSON string escaper.

use page_title::escape::json_escape;

#[test]
fn plain_text_is_unchanged() {
    assert_eq!(json_escape("Yahoo! JAPAN"), "Yahoo! JAPAN");
}

#[test]
fn empty_text_is_unchanged() {
    assert_eq!(json_escape(""), "");
}

#[test]
fn quote_and_backslash_get_backslash_escapes() {
    assert_eq!(json_escape("a\"b"), "a\\\"b");
    assert_eq!(json_escape("a\\b"), "a\\\\b");
}

#[test]
fn common_control_characters_get_short_escapes() {
    assert_eq!(json_escape("a\nb"), "a\\nb");
    assert_eq!(json_escape("a\rb"), "a\\rb");
    assert_eq!(json_escape("a\tb"), "a\\tb");
}

#[test]
fn other_control_characters_get_unicode_escapes() {
    assert_eq!(json_escape("\u{0}"), "\\u0000");
    assert_eq!(json_escape("\u{1}"), "\\u0001");
    assert_eq!(json_escape("\u{b}"), "\\u000b");
    assert_eq!(json_escape("\u{1f}"), "\\u001f");
}

#[test]
fn non_ascii_passes_through() {
    assert_eq!(json_escape("\u{65e5}\u{672c}"), "\u{65e5}\u{672c}");
    assert_eq!(json_escape("\u{1f600}"), "\u{1f600}");
}

#[test]
fn escaped_output_is_a_valid_json_string_body() {
    let nasty = "mix \" of \\ everything \n \u{2} \u{65e5}";
    let quoted = format!("\"{}\"", json_escape(nasty));
    let back: String = serde_json::from_str(&quoted).expect("must parse as a JSON string");
    assert_eq!(back, nasty);
}
