use plwr::protocol::{frame, unframe, Command, Response};

#[test]
fn page_free_commands() {
    assert!(!Command::Open { url: "https://example.com".to_string() }.requires_page());
    assert!(!Command::Stop.requires_page());
    assert!(!Command::Header { name: "A".to_string(), value: "b".to_string() }.requires_page());
    assert!(!Command::HeaderClear.requires_page());
    assert!(!Command::Viewport { width: 375, height: 667 }.requires_page());
}

#[test]
fn page_bound_commands() {
    assert!(Command::Reload.requires_page());
    assert!(Command::Url.requires_page());
    assert!(Command::Click { selector: "a".to_string(), timeout: 5000 }.requires_page());
    assert!(Command::Press { key: "Enter".to_string() }.requires_page());
    assert!(Command::Cookie { name: "n".to_string(), value: "v".to_string(), url: String::new() }.requires_page());
    assert!(Command::CookieList.requires_page());
    assert!(Command::VideoStop { output: None }.requires_page());
    assert!(Command::WaitAll { selectors: vec!["a".to_string()], timeout: 1 }.requires_page());
}

#[test]
fn response_constructors() {
    let ok = Response::ok_empty();
    assert!(ok.ok && ok.value.is_none() && ok.error.is_none());
    let v = Response::ok_value(serde_json::Value::Bool(true));
    assert!(v.ok);
    assert_eq!(v.value, Some(serde_json::Value::Bool(true)));
    assert!(v.error.is_none());
    let e = Response::err("boom".to_string());
    assert!(!e.ok && e.value.is_none());
    assert_eq!(e.error.as_deref(), Some("boom"));
}

#[test]
fn frame_appends_one_line_break() {
    assert_eq!(frame("{\"command\":{\"type\":\"url\"}}"), "{\"command\":{\"type\":\"url\"}}\n");
    assert_eq!(frame(""), "\n");
}

#[test]
fn unframe_takes_the_first_line() {
    assert_eq!(unframe("{\"ok\":true}\n"), Some("{\"ok\":true}".to_string()));
    assert_eq!(unframe("{\"ok\":true}"), Some("{\"ok\":true}".to_string()));
    assert_eq!(unframe("a\nb\n"), Some("a".to_string()));
    assert_eq!(unframe(""), None);
}

#[test]
fn frame_round_trip() {
    let doc = "{\"command\":{\"type\":\"wait\",\"selector\":\"#x\",\"timeout\":5}}";
    assert_eq!(unframe(&frame(doc)), Some(doc.to_string()));
}
