use plwr::protocol::Command;
use plwr::session::{cookie_url, SessionState, NO_PAGE_OPEN};

#[test]
fn page_bound_commands_rejected_before_open() {
    let st = SessionState::new();
    for cmd in [
        Command::Reload,
        Command::Url,
        Command::Text { selector: "h1".to_string(), timeout: 5000 },
        Command::Press { key: "Enter".to_string() },
        Command::Eval { js: "1".to_string() },
        Command::CookieList,
    ] {
        let r = st.page_check(&cmd).expect("rejected");
        assert!(!r.ok);
        assert!(r.value.is_none());
        assert_eq!(r.error.as_deref(), Some("No page open. Use 'plwr open <url>' first."));
        assert_eq!(r.error.as_deref(), Some(NO_PAGE_OPEN));
    }
}

#[test]
fn page_free_commands_pass_before_open() {
    let st = SessionState::new();
    assert!(st.page_check(&Command::Open { url: "about:blank".to_string() }).is_none());
    assert!(st.page_check(&Command::Stop).is_none());
    assert!(st.page_check(&Command::HeaderClear).is_none());
}

#[test]
fn everything_passes_once_open() {
    let mut st = SessionState::new();
    st.page_opened = true;
    assert!(st.page_check(&Command::Reload).is_none());
    assert!(st.page_check(&Command::Text { selector: "h1".to_string(), timeout: 1 }).is_none());
}

#[test]
fn headers_replace_by_name_and_keep_order() {
    let mut st = SessionState::new();
    st.set_header("Authorization".to_string(), "Bearer a".to_string());
    st.set_header("X-Trace".to_string(), "1".to_string());
    st.set_header("Authorization".to_string(), "Bearer b".to_string());
    assert_eq!(
        st.headers,
        vec![
            ("Authorization".to_string(), "Bearer b".to_string()),
            ("X-Trace".to_string(), "1".to_string())
        ]
    );
    st.clear_headers();
    assert!(st.headers.is_empty());
}

#[test]
fn cookie_url_defaults_to_current_page() {
    assert_eq!(cookie_url(String::new(), "https://example.com/".to_string()), "https://example.com/");
    assert_eq!(cookie_url("https://a.test".to_string(), "https://example.com/".to_string()), "https://a.test");
}
