use plwr::bootstrap::{
    daemon_args, ensure_started, lock_file_name, handshake_step, next_client_action, socket_file_name,
    startup_failure_line, Attempt, ChannelEvent, ClientAction, HandshakeStep, StartAction,
};

#[test]
fn reachable_daemon_is_used() {
    assert!(matches!(ensure_started(true, true), StartAction::AlreadyRunning));
}

#[test]
fn stale_socket_is_removed_before_spawn() {
    assert!(matches!(ensure_started(false, true), StartAction::Spawn { remove_stale_socket: true }));
    assert!(matches!(ensure_started(false, false), StartAction::Spawn { remove_stale_socket: false }));
}

#[test]
fn fresh_session_spawns_once_then_reuses() {
    // First invocation: nothing listens, so it takes the lock and spawns.
    assert!(matches!(next_client_action(Attempt::First, false, false, true), ClientAction::Lock));
    assert!(matches!(
        next_client_action(Attempt::Locked, false, false, true),
        ClientAction::Spawn { remove_stale_socket: false }
    ));
    assert!(matches!(handshake_step(120, &ChannelEvent::Line("starting".to_string())), HandshakeStep::Continue));
    assert!(matches!(handshake_step(900, &ChannelEvent::Line("### ready".to_string())), HandshakeStep::Ready));
    assert!(matches!(next_client_action(Attempt::AfterSpawn, true, true, true), ClientAction::Exchange));
    // A later invocation connects directly.
    assert!(matches!(next_client_action(Attempt::First, true, true, true), ClientAction::Exchange));
}

#[test]
fn concurrent_client_reuses_daemon_started_under_lock() {
    assert!(matches!(next_client_action(Attempt::First, false, true, true), ClientAction::Lock));
    assert!(matches!(next_client_action(Attempt::Locked, true, true, true), ClientAction::Exchange));
}

#[test]
fn stale_socket_removed_under_lock() {
    assert!(matches!(
        next_client_action(Attempt::Locked, false, true, true),
        ClientAction::Spawn { remove_stale_socket: true }
    ));
}

#[test]
fn no_spawn_for_stop() {
    assert!(matches!(next_client_action(Attempt::First, false, true, false), ClientAction::NotRunning));
}

#[test]
fn second_failure_is_fatal() {
    match next_client_action(Attempt::AfterSpawn, false, false, true) {
        ClientAction::Fail(m) => assert_eq!(m, "Could not connect to the session daemon after starting it"),
        _ => panic!("expected failure"),
    }
}

#[test]
fn error_line_fails_with_its_message() {
    match handshake_step(10, &ChannelEvent::Line("### error bind failed".to_string())) {
        HandshakeStep::Failed { message, kill } => {
            assert_eq!(message, "bind failed");
            assert!(!kill);
        }
        _ => panic!("expected failure"),
    }
}

#[test]
fn closed_channel_means_crash() {
    match handshake_step(10, &ChannelEvent::Closed) {
        HandshakeStep::Failed { message, kill } => {
            assert_eq!(message, "Daemon exited unexpectedly");
            assert!(!kill);
        }
        _ => panic!("expected failure"),
    }
}

#[test]
fn deadline_kills_child() {
    match handshake_step(30001, &ChannelEvent::Line("### ready".to_string())) {
        HandshakeStep::Failed { message, kill } => {
            assert_eq!(message, "Daemon did not start within 30s");
            assert!(kill);
        }
        _ => panic!("expected failure"),
    }
    assert!(matches!(handshake_step(30000, &ChannelEvent::Line("### ready".to_string())), HandshakeStep::Ready));
}

#[test]
fn read_failure_is_reported() {
    match handshake_step(0, &ChannelEvent::ReadFailed("broken pipe".to_string())) {
        HandshakeStep::Failed { message, .. } => assert_eq!(message, "broken pipe"),
        _ => panic!("expected failure"),
    }
}

#[test]
fn startup_failure_lines() {
    assert_eq!(startup_failure_line("Address in use"), "### error Address in use");
    assert_eq!(
        startup_failure_line("driver not found in PATH"),
        "### error Playwright not found. Install with: npm install -g playwright && npx playwright install chromium"
    );
}

#[test]
fn spawn_arguments_and_socket_name() {
    assert_eq!(daemon_args("s1"), vec!["--session".to_string(), "s1".to_string(), "daemon".to_string()]);
    assert_eq!(socket_file_name("s1"), "s1.sock");
    assert_eq!(lock_file_name("s1"), "s1.lock");
}
