use mcp_discovery::sanitize::{fix_trailing_commas, remove_comments, strip_json_comments};

#[test]
fn string_literal_with_slashes_survives() {
    let text = "{\"a\": \"http://x\"}";
    assert_eq!(strip_json_comments(text), text);
}

#[test]
fn string_literal_with_block_markers_survives() {
    let text = "{\"a\": \"/* not a comment */\", \"b\": \"x\\\"//y\"}";
    assert_eq!(strip_json_comments(text), text);
}

#[test]
fn line_comment_leaves_newline_and_content() {
    assert_eq!(strip_json_comments("// note\n{\"a\": 1}"), "\n{\"a\": 1}");
    assert_eq!(strip_json_comments("{\"a\": 1 // note\n}"), "{\"a\": 1 \n}");
}

#[test]
fn line_comment_at_end_of_text_is_dropped() {
    assert_eq!(strip_json_comments("{} // tail"), "{} ");
}

#[test]
fn block_comment_is_removed() {
    assert_eq!(strip_json_comments("{/* a */\"a\": /* b\n c */ 1}"), "{\"a\":  1}");
    assert_eq!(remove_comments("a/**/b"), "ab");
    assert_eq!(remove_comments("a/***/b"), "ab");
}

#[test]
fn block_comment_without_end_takes_the_rest() {
    assert_eq!(strip_json_comments("{\"a\": 1} /* open"), "{\"a\": 1} ");
    assert_eq!(remove_comments("x /*/ y"), "x ");
}

#[test]
fn lone_slash_is_kept() {
    assert_eq!(remove_comments("1 / 2"), "1 / 2");
    assert_eq!(remove_comments("/"), "/");
}

#[test]
fn backslash_outside_a_string_escapes_nothing() {
    assert_eq!(remove_comments("\\\"//\""), "\\\"//\"");
    assert_eq!(remove_comments("\\// c\nx"), "\\\nx");
}

#[test]
fn escaped_quote_does_not_end_the_string() {
    let text = "\"a\\\" // still inside\"";
    assert_eq!(remove_comments(text), text);
}

#[test]
fn trailing_comma_before_brace_is_removed() {
    assert_eq!(strip_json_comments("\"a\": 1,\n}"), "\"a\": 1\n}");
    assert_eq!(fix_trailing_commas("[1, 2, ]"), "[1, 2 ]");
    assert_eq!(fix_trailing_commas("[1,]"), "[1]");
}

#[test]
fn other_commas_are_kept() {
    assert_eq!(fix_trailing_commas("[1, 2]"), "[1, 2]");
    assert_eq!(fix_trailing_commas("a,  "), "a,  ");
    assert_eq!(fix_trailing_commas(","), ",");
    assert_eq!(fix_trailing_commas(""), "");
}

#[test]
fn only_the_last_of_two_commas_is_trailing() {
    assert_eq!(fix_trailing_commas("[1,,]"), "[1,]");
}

#[test]
fn comma_pass_is_not_aware_of_strings() {
    assert_eq!(fix_trailing_commas("{\"a\": \"x,  }\"}"), "{\"a\": \"x  }\"}");
}

#[test]
fn comma_pass_knows_unicode_white_space() {
    assert_eq!(fix_trailing_commas("[1,\u{a0}\u{2003}\t]"), "[1\u{a0}\u{2003}\t]");
    assert_eq!(fix_trailing_commas("[1,\u{200b}]"), "[1,\u{200b}]");
}

#[test]
fn sanitize_twice_is_sanitize_once_on_settings_text() {
    let text = "{\n  // servers\n  \"mcp\": {\"servers\": {\"a\": {\"command\": \"x\", },},},\n}";
    let once = strip_json_comments(text);
    assert_eq!(strip_json_comments(&once), once);
    let strict = "{\"a\": [1, 2, {\"b\": \"c // d\"}]}";
    assert_eq!(strip_json_comments(strict), strict);
}

#[test]
fn sanitized_text_parses() {
    let text = "{\n  /* c */ \"a\": [1, 2,], // d\n}";
    let v: serde_json::Value = serde_json::from_str(&strip_json_comments(text)).unwrap();
    assert_eq!(v.get("a").unwrap().as_array().unwrap().len(), 2);
}

#[test]
fn non_ascii_text_passes_through() {
    assert_eq!(strip_json_comments("{\"é\": \"日本語\"} // ü"), "{\"é\": \"日本語\"} ");
}

#[test]
fn two_commas_before_a_bracket_need_two_passes() {
    let text = "[\"a,,]\"]";
    let once = strip_json_comments(text);
    assert_eq!(once, "[\"a,]\"]");
    assert_eq!(strip_json_comments(&once), "[\"a]\"]");
}

#[test]
fn sanitized_text_holds_no_comment() {
    let text = "/ /* x */* a *//\n/\"//\"*2,}";
    let once = strip_json_comments(text);
    assert_eq!(remove_comments(&once), once);
}
