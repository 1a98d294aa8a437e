use plwr::errors::{clean_error, press_error};

#[test]
fn strips_protocol_prefixes_and_stack() {
    let raw = "Protocol error (Page.click): Error: strict mode violation: something broke \n at foo.js:1\n    at bar";
    assert_eq!(clean_error(raw), "something broke");
}

#[test]
fn keeps_selector_annotation_after_trace() {
    let raw = "Error: Timeout 500ms exceeded.\n    at Object.click (x.js:1:1)\n[selector: #go]";
    assert_eq!(clean_error(raw), "Timeout 500ms exceeded. [selector: #go]");
}

#[test]
fn annotation_not_repeated_when_line_ends_with_bracket() {
    let raw = "Timeout 5000ms exceeded. [selector: h1]";
    assert_eq!(clean_error(raw), "Timeout 5000ms exceeded. [selector: h1]");
}

#[test]
fn ambiguous_selector_gets_nth_hint() {
    let raw = "Error: strict mode violation: locator('li.item') resolved to 3 elements:\n    1) <li>a</li>\n [selector: li.item]";
    let out = clean_error(raw);
    assert!(out.starts_with("locator('li.item') resolved to 3 elements: [selector: li.item]"));
    assert!(out.contains("resolved to"));
    assert!(out.contains("Hint: use '>> nth=0' to select the first match"));
    assert!(out.ends_with("plwr <command> \"li.item >> nth=0\""));
}

#[test]
fn ambiguous_without_selector_uses_placeholder() {
    let out = clean_error("locator resolved to 2 elements");
    assert_eq!(
        out,
        "locator resolved to 2 elements\n\nHint: use '>> nth=0' to select the first match, e.g.:\n  plwr <command> \"SELECTOR >> nth=0\""
    );
}

#[test]
fn parenthetical_context_is_dropped() {
    assert_eq!(clean_error("(frame.goto): net::ERR_NAME_NOT_RESOLVED"), "net::ERR_NAME_NOT_RESOLVED");
}

#[test]
fn trailing_whitespace_is_trimmed() {
    assert_eq!(clean_error("Error: oops   \r\nmore"), "oops");
}

#[test]
fn empty_message_stays_empty() {
    assert_eq!(clean_error(""), "");
}

#[test]
fn leading_frame_line_leaves_only_annotation() {
    assert_eq!(clean_error("    at x.js:1 [selector: a]"), " [selector: a]");
}

#[test]
fn clean_message_is_a_fixed_point() {
    for m in [
        "Element is not visible",
        "locator resolved to 2 elements",
        "Timeout 10ms exceeded. [selector: a]",
        "locator('li') resolved to 3 elements [selector: li] while clicking",
        "waiting [selector: #a] and [selector: #b",
    ] {
        let once = clean_error(m);
        assert_eq!(clean_error(&once), once);
    }
}

#[test]
fn unknown_key_lists_valid_keys() {
    let out = press_error("Error: Unknown key: \"BadKeyName\"");
    assert!(out.starts_with("Unknown key: \"BadKeyName\"\n\nValid keys: a-z A-Z 0-9,"));
    assert!(out.contains("ArrowUp ArrowDown ArrowLeft ArrowRight"));
    assert!(out.contains("F1-F12, Control Shift Alt Meta"));
    assert!(out.contains("!@#$%^&*()_+-=[]{}\\|;':\",./<>?`~"));
    assert!(out.ends_with("Chords: Control+c, Shift+Enter, Alt+Tab, Meta+a"));
}

#[test]
fn other_press_failures_are_only_normalized() {
    assert_eq!(press_error("Error: page closed \n stack"), "page closed");
}

#[test]
fn selector_ending_in_annotation_stem_is_not_a_fixed_point() {
    let once = clean_error("x resolved to 2 elements [selector: a[selector:]");
    assert!(once.ends_with("plwr <command> \"a[selector: >> nth=0\""));
    assert_ne!(clean_error(&once), once);
}
