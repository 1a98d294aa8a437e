use plwr::wait::{
    engine_timeout_message, wait_all_step, wait_any_step, wait_gone_step, wait_present_step,
    wait_visible_step, PollStep, POLL_INTERVAL_MS, SLOW_POLL_INTERVAL_MS,
};

fn sels(v: &[&str]) -> Vec<String> {
    v.iter().map(|s| s.to_string()).collect()
}

fn timed_out(p: PollStep) -> String {
    match p {
        PollStep::TimedOut(m) => m,
        _ => panic!("expected a timeout"),
    }
}

#[test]
fn visible_succeeds_at_once() {
    assert!(matches!(wait_visible_step("h1", true, 999999, 10), PollStep::Satisfied));
}

#[test]
fn invisible_retries_before_deadline() {
    assert!(matches!(wait_visible_step("h1", false, 10, 10), PollStep::Retry(ms) if ms == POLL_INTERVAL_MS));
    assert_eq!(POLL_INTERVAL_MS, 50);
}

#[test]
fn invisible_times_out_naming_selector() {
    assert_eq!(timed_out(wait_visible_step("#login", false, 5001, 5000)), "Timeout 5000ms exceeded. [selector: #login]");
    assert_eq!(timed_out(wait_visible_step("p", false, 1, 0)), "Timeout 0ms exceeded. [selector: p]");
}

#[test]
fn wait_all_needs_every_selector_at_once() {
    let s = sels(&["a", "b"]);
    assert!(matches!(wait_all_step(&s, &vec![true, true], 0, 100), PollStep::Satisfied));
    assert!(matches!(wait_all_step(&s, &vec![true, false], 0, 100), PollStep::Retry(50)));
    assert!(matches!(wait_all_step(&s, &vec![false, true], 100, 100), PollStep::Retry(50)));
}

#[test]
fn wait_all_timeout_names_only_missing() {
    let s = sels(&["a", "b"]);
    let m = timed_out(wait_all_step(&s, &vec![true, false], 101, 100));
    assert_eq!(m, "Timeout 100ms exceeded. Still missing: [b]");
    assert!(!m.contains("[a"));
    let m = timed_out(wait_all_step(&sels(&["x", "y", "z"]), &vec![false, true, false], 2000, 1500));
    assert_eq!(m, "Timeout 1500ms exceeded. Still missing: [x, z]");
}

#[test]
fn wait_any_returns_first_visible() {
    let s = sels(&["a", "b"]);
    assert!(matches!(wait_any_step(&s, &vec![false, true], 0, 100), PollStep::Matched(1)));
    assert!(matches!(wait_any_step(&s, &vec![true, true], 0, 100), PollStep::Matched(0)));
    assert!(matches!(wait_any_step(&s, &vec![false, false], 5, 100), PollStep::Retry(50)));
}

#[test]
fn wait_any_timeout_lists_all() {
    let s = sels(&["a", "b"]);
    assert_eq!(timed_out(wait_any_step(&s, &vec![false, false], 300, 250)), "Timeout 250ms exceeded. None matched: [a, b]");
}

#[test]
fn wait_gone_polls_slowly() {
    assert!(matches!(wait_gone_step(".spinner", 0, 0, 10), PollStep::Satisfied));
    assert!(matches!(wait_gone_step(".spinner", 2, 0, 10), PollStep::Retry(ms) if ms == SLOW_POLL_INTERVAL_MS));
    assert_eq!(timed_out(wait_gone_step(".spinner", 1, 11, 10)), "Timeout waiting for '.spinner' to disappear");
}

#[test]
fn wait_present_ignores_visibility() {
    assert!(matches!(wait_present_step("div", 1, 0, 10), PollStep::Satisfied));
    assert!(matches!(wait_present_step("div", 0, 10, 10), PollStep::Retry(50)));
    assert_eq!(timed_out(wait_present_step("div", 0, 12, 10)), "Timeout 10ms: element not found [div]");
}

#[test]
fn engine_limit_message() {
    assert_eq!(engine_timeout_message("li"), "Timeout waiting for Playwright response. [selector: li]");
}

#[test]
fn largest_timeout_is_written_in_full() {
    assert_eq!(
        timed_out(wait_visible_step("a", false, u64::MAX, u64::MAX - 1)),
        "Timeout 18446744073709551614ms exceeded. [selector: a]"
    );
}
