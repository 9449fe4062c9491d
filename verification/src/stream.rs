//! The streaming loop: a flow-controlled send/acknowledge cycle over the
//! installed connection, honoring the pause flag and the stop token in
//! `SessionState`.
//!
//! The loop's decisions are pure: `advance` says what to do next (send a
//! window, wait, or exit) and `acknowledge` folds a received count into
//! the cursor. The embedder performs the writes and reads between calls.
//! `run_script` replays one whole session against a script — a recorded
//! interleaving of firmware events and user commands — and is pinned to
//! the mathematical model `run_from`, about which the flow-control laws
//! are proved.

use vstd::prelude::*;

use crate::config::InstructionSet;
use crate::errors::SessionError;
use crate::frames::parse_handshake_reply;
use crate::frames::parse_handshake_reply_spec;
use crate::session::ConnectionId;
use crate::session::SessionState;

verus! {

/// What the streaming loop decides to do next, given the shared state.
#[derive(Clone, Copy, Debug, PartialEq, Eq, Structural)]
pub enum LoopStep {
    /// The stop token is raised: exit without sending remaining bytes.
    Stopped,
    /// Every instruction byte has been sent and acknowledged.
    Complete,
    /// Send the window of `len` instruction bytes starting at `start`.
    Sent { start: usize, len: usize },
    /// Nothing may be sent now (paused, or the firmware's buffer is
    /// full): wait for the next acknowledgement or command.
    Waiting,
}

/// One occurrence while the loop waits on the wire: an acknowledgement
/// arriving on the read half, a user command reaching the shared state,
/// or the link going away. A sequence of these is one admissible
/// interleaving of the concurrent session.
#[derive(Clone, Copy, Debug, PartialEq, Eq, Structural)]
pub enum ScriptItem {
    /// The firmware acknowledges this many consumed bytes.
    Ack(usize),
    /// The user toggles the pause flag.
    TogglePause,
    /// The user requests a stop.
    Stop,
    /// The read side reports end-of-stream or an I/O failure.
    ConnectionLost,
}

/// What the session tells its observer. Progress events are the sole
/// channel through which the user interface learns session state; every
/// run ends with exactly one terminal event: `Complete`, `Stopped`, or
/// `Failed`.
#[derive(Clone, Copy, Debug, PartialEq, Eq, Structural)]
pub enum SessionEvent {
    /// The handshake succeeded and the connection is installed.
    Connected,
    /// `sent` of `total` instruction bytes are sent and acknowledged.
    Progress { sent: usize, total: usize },
    /// The whole stream was sent and acknowledged.
    Complete,
    /// The loop exited on a stop request.
    Stopped,
    /// The loop exited on an error.
    Failed(SessionError),
}

/// The state the streaming loop keeps beside the shared `SessionState`:
/// the stream's length, the firmware's declared capacity, and how many
/// bytes have been written so far (acknowledged or still in flight).
pub struct StreamingLoop {
    /// The length of the instruction stream being sent.
    pub total: usize,
    /// The firmware's instruction buffer capacity, from the handshake.
    pub capacity: usize,
    /// How many instruction bytes have been written to the wire.
    pub sent: usize,
}

/// How many bytes are eligible to send: at most `cap` bytes beyond the
/// last acknowledged position `cursor`, never exceeding `total`, and
/// diminished by the `sent` bytes already written.
pub open spec fn window_size(cursor: int, sent: int, total: int, cap: int) -> int {
    if cursor + cap <= total {
        cursor + cap - sent
    } else {
        total - sent
    }
}

/// The window the loop may send now: nothing while paused, else
/// `window_size`.
pub open spec fn eligible_window(paused: bool, cursor: int, sent: int, total: int, cap: int) -> int {
    if paused {
        0
    } else {
        window_size(cursor, sent, total, cap)
    }
}

impl StreamingLoop {
    /// The loop's invariant against the shared cursor: the capacity can
    /// hold a byte, writes trail the stream's end, acknowledgements trail
    /// the writes, and never more than `capacity` bytes are in flight
    /// beyond the last acknowledged position.
    pub open spec fn wf(&self, cursor: int) -> bool {
        &&& self.capacity >= 1
        &&& 0 <= cursor <= self.sent <= self.total
        &&& self.sent <= cursor + self.capacity
    }

    /// Starts a loop over a stream of `total` bytes against a firmware
    /// buffer of `capacity` bytes. Nothing is written yet.
    pub fn new(total: usize, capacity: usize) -> (r: Self)
        requires
            capacity >= 1,
        ensures
            r == (StreamingLoop { total, capacity, sent: 0 }),
            r.wf(0),
    {
        StreamingLoop { total, capacity, sent: 0 }
    }

    /// One decision of the loop, taken between suspension points: exit on
    /// the stop token, exit on completion, send the eligible window, or
    /// wait. Exactly the claimed window is marked written.
    pub fn advance(&mut self, st: &SessionState) -> (step: LoopStep)
        requires
            old(self).wf(st.send_cursor as int),
        ensures
            final(self).total == old(self).total,
            final(self).capacity == old(self).capacity,
            final(self).wf(st.send_cursor as int),
            st.stop_requested ==> step == LoopStep::Stopped && *final(self) == *old(self),
            !st.stop_requested && st.send_cursor == old(self).total ==> step == LoopStep::Complete
                && *final(self) == *old(self),
            !st.stop_requested && st.send_cursor != old(self).total ==> ({
                let w = eligible_window(
                    st.paused,
                    st.send_cursor as int,
                    old(self).sent as int,
                    old(self).total as int,
                    old(self).capacity as int,
                );
                if w > 0 {
                    step == (LoopStep::Sent { start: old(self).sent, len: w as usize })
                        && final(self).sent == old(self).sent + w
                } else {
                    step == LoopStep::Waiting && *final(self) == *old(self)
                }
            }),
    {
        if st.stop_requested {
            LoopStep::Stopped
        } else if st.send_cursor == self.total {
            LoopStep::Complete
        } else if st.paused {
            LoopStep::Waiting
        } else {
            let headroom = self.total - st.send_cursor;
            let limit = if self.capacity <= headroom {
                st.send_cursor + self.capacity
            } else {
                self.total
            };
            if limit > self.sent {
                let start = self.sent;
                let len = limit - self.sent;
                self.sent = limit;
                LoopStep::Sent { start, len }
            } else {
                LoopStep::Waiting
            }
        }
    }

    /// Folds an acknowledged byte count into the shared cursor. A count
    /// reaching beyond what was ever written is a protocol violation and
    /// leaves the state untouched; otherwise the cursor advances by
    /// exactly the count, never decreasing.
    pub fn acknowledge(&self, st: &mut SessionState, count: usize) -> (r: Result<
        (),
        SessionError,
    >)
        requires
            self.wf(old(st).send_cursor as int),
        ensures
            old(st).send_cursor + count > self.sent ==> r == Result::<(), SessionError>::Err(
                SessionError::ProtocolError,
            ) && *final(st) == *old(st),
            old(st).send_cursor + count <= self.sent ==> r == Result::<(), SessionError>::Ok(())
                && *final(st) == (SessionState {
                send_cursor: (old(st).send_cursor + count) as usize,
                ..*old(st)
            }) && self.wf(final(st).send_cursor as int),
    {
        if count > self.sent - st.send_cursor {
            Result::Err(SessionError::ProtocolError)
        } else {
            st.send_cursor = st.send_cursor + count;
            Result::Ok(())
        }
    }
}

/// The mathematical shadow of a `SessionEvent`, over unbounded integers.
#[verifier::ext_equal]
pub ghost enum EventModel {
    /// Shadow of `SessionEvent::Connected`.
    Connected,
    /// Shadow of `SessionEvent::Progress`.
    Progress { sent: int, total: int },
    /// Shadow of `SessionEvent::Complete`.
    Complete,
    /// Shadow of `SessionEvent::Stopped`.
    Stopped,
    /// Shadow of `SessionEvent::Failed`.
    Failed(SessionError),
}

/// The shadow of one emitted event.
pub open spec fn event_model(e: SessionEvent) -> EventModel {
    match e {
        SessionEvent::Connected => EventModel::Connected,
        SessionEvent::Progress { sent, total } => EventModel::Progress {
            sent: sent as int,
            total: total as int,
        },
        SessionEvent::Complete => EventModel::Complete,
        SessionEvent::Stopped => EventModel::Stopped,
        SessionEvent::Failed(err) => EventModel::Failed(err),
    }
}

/// The shadow of an emitted event sequence.
pub open spec fn events_model(s: Seq<SessionEvent>) -> Seq<EventModel> {
    s.map_values(|e: SessionEvent| event_model(e))
}

/// The shadow of a recorded window-size sequence.
pub open spec fn widths(s: Seq<usize>) -> Seq<int> {
    s.map_values(|w: usize| w as int)
}

/// What one whole streaming run amounts to: the window sizes it sent, the
/// events it emitted (ending in exactly one terminal event), and where
/// the acknowledged cursor and the write position stood when it exited.
#[verifier::ext_equal]
pub ghost struct RunModel {
    /// The sizes of the data windows sent, in order.
    pub windows: Seq<int>,
    /// The events emitted, in order; the last one is terminal.
    pub events: Seq<EventModel>,
    /// Bytes sent and acknowledged when the loop exited.
    pub cursor: int,
    /// Bytes written to the wire when the loop exited.
    pub sent: int,
}

/// Prefixes windows and events onto a later run segment.
pub open spec fn model_prepend(wins: Seq<int>, evs: Seq<EventModel>, m: RunModel) -> RunModel {
    RunModel { windows: wins + m.windows, events: evs + m.events, cursor: m.cursor, sent: m.sent }
}

/// The streaming loop as a function: from a loop state and the script of
/// what arrives while it waits, to everything observable about the run.
///
/// Each round exits on the stop token, exits on completion, sends the
/// eligible window, and then consumes the next occurrence: a valid
/// acknowledgement advances the cursor and emits progress, an
/// acknowledgement reaching beyond the written bytes is a protocol
/// violation, commands flip the pause flag or raise the stop token, a
/// lost link is a connection error, and an exhausted script means the
/// wait outlasted its bound.
pub open spec fn run_from(
    cursor: int,
    sent: int,
    paused: bool,
    stopped: bool,
    total: int,
    cap: int,
    script: Seq<ScriptItem>,
) -> RunModel
    decreases script.len(),
{
    if stopped {
        RunModel { windows: Seq::empty(), events: seq![EventModel::Stopped], cursor, sent }
    } else if cursor == total {
        RunModel { windows: Seq::empty(), events: seq![EventModel::Complete], cursor, sent }
    } else {
        let w = eligible_window(paused, cursor, sent, total, cap);
        let wins = if w > 0 {
            seq![w]
        } else {
            Seq::<int>::empty()
        };
        let sent2 = if w > 0 {
            sent + w
        } else {
            sent
        };
        if script.len() == 0 {
            RunModel {
                windows: wins,
                events: seq![EventModel::Failed(SessionError::TimeoutError)],
                cursor,
                sent: sent2,
            }
        } else {
            match script[0] {
                ScriptItem::Ack(n) => if cursor + n > sent2 {
                    RunModel {
                        windows: wins,
                        events: seq![EventModel::Failed(SessionError::ProtocolError)],
                        cursor,
                        sent: sent2,
                    }
                } else {
                    model_prepend(
                        wins,
                        seq![EventModel::Progress { sent: cursor + n, total }],
                        run_from(cursor + n, sent2, paused, stopped, total, cap, script.skip(1)),
                    )
                },
                ScriptItem::TogglePause => model_prepend(
                    wins,
                    Seq::empty(),
                    run_from(cursor, sent2, !paused, stopped, total, cap, script.skip(1)),
                ),
                ScriptItem::Stop => model_prepend(
                    wins,
                    Seq::empty(),
                    run_from(cursor, sent2, paused, true, total, cap, script.skip(1)),
                ),
                ScriptItem::ConnectionLost => RunModel {
                    windows: wins,
                    events: seq![EventModel::Failed(SessionError::ConnectionError)],
                    cursor,
                    sent: sent2,
                },
            }
        }
    }
}

/// Everything observable about one finished streaming run.
pub struct RunOutcome {
    /// The sizes of the data windows sent, in order.
    pub windows: Vec<usize>,
    /// The events emitted, in order, ending in one terminal event.
    pub events: Vec<SessionEvent>,
    /// Bytes written to the wire when the loop exited.
    pub bytes_sent: usize,
    /// Bytes sent and acknowledged when the loop exited.
    pub bytes_acknowledged: usize,
}

proof fn lemma_events_model_push(s: Seq<SessionEvent>, e: SessionEvent)
    ensures
        events_model(s.push(e)) == events_model(s) + seq![event_model(e)],
{
    assert(events_model(s.push(e)) =~= events_model(s) + seq![event_model(e)]);
}

proof fn lemma_widths_push(s: Seq<usize>, w: usize)
    ensures
        widths(s.push(w)) == widths(s) + seq![w as int],
{
    assert(widths(s.push(w)) =~= widths(s) + seq![w as int]);
}

proof fn lemma_skip_step(s: Seq<ScriptItem>, i: int)
    requires
        0 <= i < s.len(),
    ensures
        s.skip(i).skip(1) == s.skip(i + 1),
        s.skip(i)[0] == s[i],
        s.skip(i).len() == s.len() - i,
{
    assert(s.skip(i).skip(1) =~= s.skip(i + 1));
}

/// Replays one whole streaming session against `script`, one admissible
/// interleaving of firmware acknowledgements and user commands: drives
/// the loop to its terminal event and tears the shared state down on
/// exit, whatever the exit path was. The outcome is exactly what the
/// model `run_from` says for this stream length, capacity and script.
#[verifier::loop_isolation(false)]
pub fn run_script(
    st: &mut SessionState,
    total: usize,
    capacity: usize,
    script: &Vec<ScriptItem>,
) -> (r: RunOutcome)
    requires
        old(st).active(),
        old(st).send_cursor == 0,
        capacity >= 1,
    ensures
        ({
            let m = run_from(
                0,
                0,
                old(st).paused,
                old(st).stop_requested,
                total as int,
                capacity as int,
                script@,
            );
            &&& widths(r.windows@) == m.windows
            &&& events_model(r.events@) == m.events
            &&& r.bytes_acknowledged == m.cursor
            &&& r.bytes_sent == m.sent
        }),
        final(st).is_reset(),
{
    let ghost full = run_from(
        0,
        0,
        st.paused,
        st.stop_requested,
        total as int,
        capacity as int,
        script@,
    );
    let mut sl = StreamingLoop::new(total, capacity);
    let mut windows: Vec<usize> = Vec::new();
    let mut events: Vec<SessionEvent> = Vec::new();
    let mut i: usize = 0;
    let mut done: bool = false;
    proof {
        assert(script@.skip(0) =~= script@);
    }
    while !done
        invariant
            st.active(),
            sl.total == total,
            sl.capacity == capacity,
            sl.wf(st.send_cursor as int),
            i <= script@.len(),
            !done ==> ({
                let rest = run_from(
                    st.send_cursor as int,
                    sl.sent as int,
                    st.paused,
                    st.stop_requested,
                    total as int,
                    capacity as int,
                    script@.skip(i as int),
                );
                &&& full.windows == widths(windows@) + rest.windows
                &&& full.events == events_model(events@) + rest.events
                &&& full.cursor == rest.cursor
                &&& full.sent == rest.sent
            }),
            done ==> ({
                &&& full.windows == widths(windows@)
                &&& full.events == events_model(events@)
                &&& full.cursor == st.send_cursor as int
                &&& full.sent == sl.sent as int
            }),
        decreases script@.len() - i + (if done {
            0int
        } else {
            1int
        }),
    {
        let ghost cur0 = st.send_cursor as int;
        let ghost sent0 = sl.sent as int;
        let ghost p0 = st.paused;
        let ghost q0 = st.stop_requested;
        let ghost rest0 = run_from(
            cur0,
            sent0,
            p0,
            q0,
            total as int,
            capacity as int,
            script@.skip(i as int),
        );
        let ghost evs0 = events@;
        let ghost wins0 = windows@;
        let step = sl.advance(st);
        if step == LoopStep::Stopped {
            events.push(SessionEvent::Stopped);
            done = true;
            proof {
                lemma_events_model_push(evs0, SessionEvent::Stopped);
                assert(full.windows =~= widths(windows@));
                assert(full.events =~= events_model(events@));
            }
        } else if step == LoopStep::Complete {
            events.push(SessionEvent::Complete);
            done = true;
            proof {
                lemma_events_model_push(evs0, SessionEvent::Complete);
                assert(full.windows =~= widths(windows@));
                assert(full.events =~= events_model(events@));
            }
        } else {
            let ghost w = eligible_window(
                p0,
                cur0,
                sent0,
                total as int,
                capacity as int,
            );
            match step {
                LoopStep::Sent { start: _, len } => {
                    windows.push(len);
                    proof {
                        lemma_widths_push(wins0, len);
                    }
                },
                _ => {},
            }
            proof {
                let wins_now = if w > 0 {
                    seq![w]
                } else {
                    Seq::<int>::empty()
                };
                assert(widths(windows@) =~= widths(wins0) + wins_now);
            }
            if i == script.len() {
                events.push(SessionEvent::Failed(SessionError::TimeoutError));
                done = true;
                proof {
                    lemma_events_model_push(evs0, SessionEvent::Failed(SessionError::TimeoutError));
                    assert(script@.skip(i as int) =~= Seq::<ScriptItem>::empty());
                    assert(full.windows =~= widths(windows@));
                    assert(full.events =~= events_model(events@));
                }
            } else {
                proof {
                    lemma_skip_step(script@, i as int);
                }
                let item = script[i];
                match item {
                    ScriptItem::Ack(n) => {
                        let ack = sl.acknowledge(st, n);
                        match ack {
                            Result::Err(err) => {
                                events.push(SessionEvent::Failed(err));
                                done = true;
                                proof {
                                    lemma_events_model_push(evs0, SessionEvent::Failed(err));
                                    assert(full.windows =~= widths(windows@));
                                    assert(full.events =~= events_model(events@));
                                }
                            },
                            Result::Ok(()) => {
                                events.push(
                                    SessionEvent::Progress { sent: st.send_cursor, total },
                                );
                                i = i + 1;
                                proof {
                                    lemma_events_model_push(
                                        evs0,
                                        SessionEvent::Progress {
                                            sent: (cur0 + n) as usize,
                                            total,
                                        },
                                    );
                                    let rest1 = run_from(
                                        st.send_cursor as int,
                                        sl.sent as int,
                                        st.paused,
                                        st.stop_requested,
                                        total as int,
                                        capacity as int,
                                        script@.skip(i as int),
                                    );
                                    assert(full.windows =~= widths(windows@) + rest1.windows);
                                    assert(full.events =~= events_model(events@) + rest1.events);
                                }
                            },
                        }
                    },
                    ScriptItem::TogglePause => {
                        let _toggled = st.toggle_pause();
                        i = i + 1;
                        proof {
                            let rest1 = run_from(
                                st.send_cursor as int,
                                sl.sent as int,
                                st.paused,
                                st.stop_requested,
                                total as int,
                                capacity as int,
                                script@.skip(i as int),
                            );
                            assert(full.windows =~= widths(windows@) + rest1.windows);
                            assert(full.events =~= events_model(events@) + rest1.events);
                        }
                    },
                    ScriptItem::Stop => {
                        let _signalled = st.request_stop();
                        i = i + 1;
                        proof {
                            let rest1 = run_from(
                                st.send_cursor as int,
                                sl.sent as int,
                                st.paused,
                                st.stop_requested,
                                total as int,
                                capacity as int,
                                script@.skip(i as int),
                            );
                            assert(full.windows =~= widths(windows@) + rest1.windows);
                            assert(full.events =~= events_model(events@) + rest1.events);
                        }
                    },
                    ScriptItem::ConnectionLost => {
                        events.push(SessionEvent::Failed(SessionError::ConnectionError));
                        done = true;
                        proof {
                            lemma_events_model_push(
                                evs0,
                                SessionEvent::Failed(SessionError::ConnectionError),
                            );
                            assert(full.windows =~= widths(windows@));
                            assert(full.events =~= events_model(events@));
                        }
                    },
                }
            }
        }
    }
    let bytes_acknowledged = st.send_cursor;
    let bytes_sent = sl.sent;
    st.teardown();
    RunOutcome { windows, events, bytes_sent, bytes_acknowledged }
}

/// The connect-and-stream command, replayed against a script: parses the
/// firmware's handshake reply, and on success installs the connection,
/// emits the connection event, and streams the instruction set to its
/// terminal event, tearing the state down on exit. A malformed or
/// unsupported reply yields one `Failed` event carrying `ProtocolError`,
/// and no state is installed — the state is left exactly as it was.
pub fn run_session(
    st: &mut SessionState,
    conn: ConnectionId,
    reply: &Vec<u8>,
    instructions: &InstructionSet,
    script: &Vec<ScriptItem>,
) -> (r: RunOutcome)
    requires
        !old(st).active(),
    ensures
        match parse_handshake_reply_spec(reply@) {
            Option::Some(c) => ({
                let m = run_from(
                    0,
                    0,
                    false,
                    false,
                    instructions@.len() as int,
                    c.instruction_buffer_size as int,
                    script@,
                );
                &&& widths(r.windows@) == m.windows
                &&& events_model(r.events@) == seq![EventModel::Connected] + m.events
                &&& r.bytes_acknowledged == m.cursor
                &&& r.bytes_sent == m.sent
                &&& final(st).is_reset()
            }),
            Option::None => {
                &&& r.windows@ == Seq::<usize>::empty()
                &&& events_model(r.events@) == seq![
                    EventModel::Failed(SessionError::ProtocolError),
                ]
                &&& r.bytes_acknowledged == 0
                &&& r.bytes_sent == 0
                &&& *final(st) == *old(st)
            },
        },
{
    match parse_handshake_reply(reply) {
        Result::Err(err) => {
            let mut events: Vec<SessionEvent> = Vec::new();
            events.push(SessionEvent::Failed(err));
            proof {
                assert(events_model(events@) =~= seq![
                    EventModel::Failed(SessionError::ProtocolError),
                ]);
            }
            RunOutcome { windows: Vec::new(), events, bytes_sent: 0, bytes_acknowledged: 0 }
        },
        Result::Ok(machine_config) => {
            st.install_connection(conn);
            let mut sub = run_script(
                st,
                instructions.len(),
                machine_config.instruction_buffer_size,
                script,
            );
            let ghost sub_events = sub.events@;
            let mut events: Vec<SessionEvent> = Vec::new();
            events.push(SessionEvent::Connected);
            events.append(&mut sub.events);
            proof {
                assert(events_model(events@) =~= seq![EventModel::Connected] + events_model(
                    sub_events,
                ));
            }
            RunOutcome {
                windows: sub.windows,
                events,
                bytes_sent: sub.bytes_sent,
                bytes_acknowledged: sub.bytes_acknowledged,
            }
        },
    }
}

} // verus!
