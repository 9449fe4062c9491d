use plotstream::errors::SessionError;
use plotstream::session::ConnectionId;
use plotstream::session::SessionState;

fn assert_reset(st: &SessionState) {
    assert!(st.write_half.is_none());
    assert!(st.read_half.is_none());
    assert!(!st.paused);
    assert_eq!(st.send_cursor, 0);
    assert!(!st.stop_requested);
}

#[test]
fn fresh_state_is_reset() {
    let st = SessionState::new();
    assert_reset(&st);
    assert!(!st.is_active());
    let defaulted = SessionState::default();
    assert_reset(&defaulted);
}

#[test]
fn install_makes_active_and_starts_stream() {
    let mut st = SessionState::new();
    st.paused = false;
    st.send_cursor = 0;
    st.install_connection(ConnectionId(7));
    assert!(st.is_active());
    assert_eq!(st.write_half, Some(ConnectionId(7)));
    assert_eq!(st.read_half, Some(ConnectionId(7)));
    assert!(!st.paused);
    assert_eq!(st.send_cursor, 0);
    assert!(!st.stop_requested);
}

#[test]
fn toggle_pause_alternates_while_active() {
    let mut st = SessionState::new();
    st.install_connection(ConnectionId(1));
    assert_eq!(st.toggle_pause(), Ok(true));
    assert!(st.paused);
    assert_eq!(st.toggle_pause(), Ok(false));
    assert!(!st.paused);
}

#[test]
fn toggle_pause_without_session_is_an_error() {
    let mut st = SessionState::new();
    assert_eq!(st.toggle_pause(), Err(SessionError::NoActiveSessionError));
    assert_reset(&st);
}

#[test]
fn stop_without_session_is_a_harmless_no_op() {
    let mut st = SessionState::new();
    let sent = st.request_stop();
    assert!(!sent);
    assert_reset(&st);
}

#[test]
fn stop_while_active_raises_the_token() {
    let mut st = SessionState::new();
    st.install_connection(ConnectionId(3));
    let sent = st.request_stop();
    assert!(sent);
    assert!(st.stop_requested);
    assert!(st.is_active());
    assert_eq!(st.send_cursor, 0);
}

#[test]
fn teardown_resets_everything() {
    let mut st = SessionState::new();
    st.install_connection(ConnectionId(2));
    st.send_cursor = 42;
    assert_eq!(st.toggle_pause(), Ok(true));
    let _ = st.request_stop();
    st.teardown();
    assert_reset(&st);
    assert!(!st.is_active());
}
