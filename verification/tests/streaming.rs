use plotstream::config::InstructionSet;
use plotstream::config::MachineConfig;
use plotstream::errors::SessionError;
use plotstream::frames::encode_handshake_reply;
use plotstream::frames::SUPPORTED_PROTOCOL_VERSION;
use plotstream::session::ConnectionId;
use plotstream::session::SessionState;
use plotstream::stream::run_script;
use plotstream::stream::run_session;
use plotstream::stream::LoopStep;
use plotstream::stream::ScriptItem;
use plotstream::stream::SessionEvent;
use plotstream::stream::StreamingLoop;

fn assert_reset(st: &SessionState) {
    assert!(st.write_half.is_none());
    assert!(st.read_half.is_none());
    assert!(!st.paused);
    assert_eq!(st.send_cursor, 0);
    assert!(!st.stop_requested);
}

fn reply_with_capacity(capacity: usize) -> Vec<u8> {
    let config = MachineConfig {
        instruction_buffer_size: capacity,
        max_motor_speed: 1200,
        min_pulse_width: 50,
        protocol_version: SUPPORTED_PROTOCOL_VERSION,
    };
    encode_handshake_reply(&config)
}

#[test]
fn advance_sends_at_most_the_buffer_capacity() {
    let mut st = SessionState::new();
    st.install_connection(ConnectionId(1));
    let mut sl = StreamingLoop::new(10, 4);
    assert_eq!(sl.advance(&st), LoopStep::Sent { start: 0, len: 4 });
    // The firmware's buffer is full: nothing more may go out.
    assert_eq!(sl.advance(&st), LoopStep::Waiting);
    assert_eq!(sl.acknowledge(&mut st, 2), Ok(()));
    assert_eq!(st.send_cursor, 2);
    assert_eq!(sl.advance(&st), LoopStep::Sent { start: 4, len: 2 });
}

#[test]
fn advance_respects_pause_and_stop() {
    let mut st = SessionState::new();
    st.install_connection(ConnectionId(1));
    let mut sl = StreamingLoop::new(10, 4);
    st.paused = true;
    assert_eq!(sl.advance(&st), LoopStep::Waiting);
    st.stop_requested = true;
    assert_eq!(sl.advance(&st), LoopStep::Stopped);
}

#[test]
fn advance_completes_when_all_bytes_are_acknowledged() {
    let mut st = SessionState::new();
    st.install_connection(ConnectionId(1));
    let mut sl = StreamingLoop::new(4, 8);
    assert_eq!(sl.advance(&st), LoopStep::Sent { start: 0, len: 4 });
    assert_eq!(sl.acknowledge(&mut st, 4), Ok(()));
    assert_eq!(sl.advance(&st), LoopStep::Complete);
}

#[test]
fn acknowledge_beyond_sent_is_a_protocol_violation() {
    let mut st = SessionState::new();
    st.install_connection(ConnectionId(1));
    let mut sl = StreamingLoop::new(10, 4);
    assert_eq!(sl.advance(&st), LoopStep::Sent { start: 0, len: 4 });
    assert_eq!(sl.acknowledge(&mut st, 5), Err(SessionError::ProtocolError));
    // The violating count moved nothing.
    assert_eq!(st.send_cursor, 0);
}

#[test]
fn full_acknowledgement_run_sends_four_windows() {
    let mut st = SessionState::new();
    let ins = InstructionSet::new(vec![0u8; 1000]);
    let script: Vec<ScriptItem> = vec![
        ScriptItem::Ack(256),
        ScriptItem::Ack(256),
        ScriptItem::Ack(256),
        ScriptItem::Ack(232),
    ];
    let reply = reply_with_capacity(256);
    let outcome = run_session(&mut st, ConnectionId(1), &reply, &ins, &script);
    assert_eq!(outcome.windows, vec![256, 256, 256, 232]);
    assert_eq!(
        outcome.events,
        vec![
            SessionEvent::Connected,
            SessionEvent::Progress { sent: 256, total: 1000 },
            SessionEvent::Progress { sent: 512, total: 1000 },
            SessionEvent::Progress { sent: 768, total: 1000 },
            SessionEvent::Progress { sent: 1000, total: 1000 },
            SessionEvent::Complete,
        ],
    );
    assert_eq!(outcome.bytes_sent, 1000);
    assert_eq!(outcome.bytes_acknowledged, 1000);
    assert_reset(&st);
}

#[test]
fn stop_after_second_window_sends_at_most_one_more() {
    let mut st = SessionState::new();
    let ins = InstructionSet::new(vec![0u8; 1000]);
    let script: Vec<ScriptItem> = vec![
        ScriptItem::Ack(256),
        ScriptItem::Ack(256),
        ScriptItem::Stop,
    ];
    let reply = reply_with_capacity(256);
    let outcome = run_session(&mut st, ConnectionId(1), &reply, &ins, &script);
    // One already-committed window went out after the second
    // acknowledgement; the stop was honored before any further one.
    assert_eq!(outcome.windows, vec![256, 256, 256]);
    assert_eq!(
        outcome.events,
        vec![
            SessionEvent::Connected,
            SessionEvent::Progress { sent: 256, total: 1000 },
            SessionEvent::Progress { sent: 512, total: 1000 },
            SessionEvent::Stopped,
        ],
    );
    assert_eq!(outcome.bytes_acknowledged, 512);
    assert_eq!(outcome.bytes_sent, 768);
    assert_reset(&st);
}

#[test]
fn unsupported_protocol_version_installs_nothing() {
    let mut st = SessionState::new();
    let ins = InstructionSet::new(vec![0u8; 100]);
    let config = MachineConfig {
        instruction_buffer_size: 256,
        max_motor_speed: 1200,
        min_pulse_width: 50,
        protocol_version: SUPPORTED_PROTOCOL_VERSION + 1,
    };
    let reply = encode_handshake_reply(&config);
    let script: Vec<ScriptItem> = vec![ScriptItem::Ack(100)];
    let outcome = run_session(&mut st, ConnectionId(1), &reply, &ins, &script);
    assert_eq!(outcome.windows, Vec::<usize>::new());
    assert_eq!(
        outcome.events,
        vec![SessionEvent::Failed(SessionError::ProtocolError)],
    );
    assert_eq!(outcome.bytes_sent, 0);
    assert_eq!(outcome.bytes_acknowledged, 0);
    assert!(!st.is_active());
    assert_reset(&st);
}

#[test]
fn pausing_blocks_windows_but_not_acknowledgements() {
    let mut st = SessionState::new();
    st.install_connection(ConnectionId(1));
    let script: Vec<ScriptItem> = vec![
        ScriptItem::TogglePause,
        ScriptItem::Ack(4),
        ScriptItem::TogglePause,
        ScriptItem::Ack(4),
    ];
    let outcome = run_script(&mut st, 8, 4, &script);
    // The first window went out before the pause; while paused its
    // acknowledgement was still processed; the second window waited for
    // the resume.
    assert_eq!(outcome.windows, vec![4, 4]);
    assert_eq!(
        outcome.events,
        vec![
            SessionEvent::Progress { sent: 4, total: 8 },
            SessionEvent::Progress { sent: 8, total: 8 },
            SessionEvent::Complete,
        ],
    );
    assert_reset(&st);
}

#[test]
fn pause_without_resume_times_out_without_sending() {
    let mut st = SessionState::new();
    st.install_connection(ConnectionId(1));
    let script: Vec<ScriptItem> = vec![ScriptItem::TogglePause, ScriptItem::Ack(4)];
    let outcome = run_script(&mut st, 8, 4, &script);
    // Only the window committed before the pause was ever sent.
    assert_eq!(outcome.windows, vec![4]);
    assert_eq!(
        outcome.events,
        vec![
            SessionEvent::Progress { sent: 4, total: 8 },
            SessionEvent::Failed(SessionError::TimeoutError),
        ],
    );
    assert_eq!(outcome.bytes_acknowledged, 4);
    assert_reset(&st);
}

#[test]
fn empty_instruction_set_completes_immediately() {
    let mut st = SessionState::new();
    let ins = InstructionSet::new(Vec::new());
    let script: Vec<ScriptItem> = Vec::new();
    let reply = reply_with_capacity(16);
    let outcome = run_session(&mut st, ConnectionId(1), &reply, &ins, &script);
    assert_eq!(outcome.windows, Vec::<usize>::new());
    assert_eq!(
        outcome.events,
        vec![SessionEvent::Connected, SessionEvent::Complete],
    );
    assert_reset(&st);
}

#[test]
fn lost_connection_fails_the_run() {
    let mut st = SessionState::new();
    st.install_connection(ConnectionId(1));
    let script: Vec<ScriptItem> = vec![ScriptItem::Ack(4), ScriptItem::ConnectionLost];
    let outcome = run_script(&mut st, 12, 4, &script);
    assert_eq!(outcome.windows, vec![4, 4]);
    assert_eq!(
        outcome.events,
        vec![
            SessionEvent::Progress { sent: 4, total: 12 },
            SessionEvent::Failed(SessionError::ConnectionError),
        ],
    );
    assert_reset(&st);
}

#[test]
fn over_acknowledgement_fails_the_run() {
    let mut st = SessionState::new();
    st.install_connection(ConnectionId(1));
    let script: Vec<ScriptItem> = vec![ScriptItem::Ack(5)];
    let outcome = run_script(&mut st, 10, 4, &script);
    assert_eq!(outcome.windows, vec![4]);
    assert_eq!(
        outcome.events,
        vec![SessionEvent::Failed(SessionError::ProtocolError)],
    );
    assert_eq!(outcome.bytes_acknowledged, 0);
    assert_reset(&st);
}

#[test]
fn stalled_acknowledgement_times_out() {
    let mut st = SessionState::new();
    st.install_connection(ConnectionId(1));
    let script: Vec<ScriptItem> = Vec::new();
    let outcome = run_script(&mut st, 10, 4, &script);
    assert_eq!(outcome.windows, vec![4]);
    assert_eq!(
        outcome.events,
        vec![SessionEvent::Failed(SessionError::TimeoutError)],
    );
    assert_reset(&st);
}

#[test]
fn session_outcome_is_independent_of_history() {
    let mut st = SessionState::new();
    let ins = InstructionSet::new(vec![0u8; 20]);
    let reply = reply_with_capacity(8);
    // A completed run, a stopped run, and a failed run, back to back on
    // the same state; after each, the state is fully reset.
    let complete: Vec<ScriptItem> = vec![
        ScriptItem::Ack(8),
        ScriptItem::Ack(8),
        ScriptItem::Ack(4),
    ];
    let stopped: Vec<ScriptItem> = vec![ScriptItem::Ack(8), ScriptItem::Stop];
    let failed: Vec<ScriptItem> = vec![ScriptItem::ConnectionLost];
    let first = run_session(&mut st, ConnectionId(1), &reply, &ins, &complete);
    assert_eq!(first.events.last(), Some(&SessionEvent::Complete));
    assert_reset(&st);
    let second = run_session(&mut st, ConnectionId(2), &reply, &ins, &stopped);
    assert_eq!(second.events.last(), Some(&SessionEvent::Stopped));
    assert_reset(&st);
    let third = run_session(&mut st, ConnectionId(3), &reply, &ins, &failed);
    assert_eq!(
        third.events.last(),
        Some(&SessionEvent::Failed(SessionError::ConnectionError)),
    );
    assert_reset(&st);
    // A fresh state drives the same script to the identical outcome.
    let mut fresh = SessionState::new();
    let again = run_session(&mut fresh, ConnectionId(4), &reply, &ins, &complete);
    assert_eq!(again.windows, first.windows);
    assert_eq!(again.events, first.events);
    assert_eq!(again.bytes_sent, first.bytes_sent);
    assert_eq!(again.bytes_acknowledged, first.bytes_acknowledged);
}
