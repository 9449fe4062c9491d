//! The session's guarantees, stated over the run model and proved for
//! every stream length, buffer capacity and script.

use vstd::prelude::*;

use crate::session::SessionState;
use crate::stream::eligible_window;
use crate::stream::run_from;
use crate::stream::EventModel;
use crate::stream::ScriptItem;

verus! {

/// The events that end a run; everything before one is a progress report.
pub open spec fn is_terminal(e: EventModel) -> bool {
    e is Complete || e is Stopped || e is Failed
}

/// A run emits at least one event, ends with exactly one terminal event,
/// and reports nothing but progress before it.
pub open spec fn well_formed_trace(evs: Seq<EventModel>) -> bool {
    &&& evs.len() >= 1
    &&& is_terminal(evs.last())
    &&& forall|k: int| 0 <= k < evs.len() - 1 ==> (#[trigger] evs[k]) is Progress
}

/// Every progress report in `evs` carries a cursor between `lo` and
/// `total` and names `total` as the stream length, and the reported
/// cursors never decrease left to right.
pub open spec fn progress_reports_monotone(evs: Seq<EventModel>, lo: int, total: int) -> bool {
    &&& (forall|k: int|
        0 <= k < evs.len() ==> match #[trigger] evs[k] {
            EventModel::Progress { sent: s, total: t } => lo <= s <= total && t == total,
            _ => true,
        })
    &&& (forall|j: int, k: int|
        0 <= j < k < evs.len() ==> match (#[trigger] evs[j], #[trigger] evs[k]) {
            (
                EventModel::Progress { sent: s1, total: _ },
                EventModel::Progress { sent: s2, total: _ },
            ) => s1 <= s2,
            _ => true,
        })
}

/// Flow control and monotonicity, for every stream of length `total`,
/// every capacity of at least one byte, and every script: each window
/// sent holds between one and `capacity` bytes, the write position never
/// runs more than `capacity` bytes ahead of the acknowledged cursor, the
/// cursor never decreases and never passes `total`, the run ends in
/// exactly one terminal event, and the progress reports are monotone.
pub proof fn lemma_flow_control(
    cursor: int,
    sent: int,
    paused: bool,
    stopped: bool,
    total: int,
    cap: int,
    script: Seq<ScriptItem>,
)
    requires
        cap >= 1,
        0 <= cursor <= sent <= total,
        sent <= cursor + cap,
    ensures
        ({
            let m = run_from(cursor, sent, paused, stopped, total, cap, script);
            &&& forall|k: int| 0 <= k < m.windows.len() ==> 1 <= #[trigger] m.windows[k] <= cap
            &&& cursor <= m.cursor <= m.sent <= total
            &&& m.sent <= m.cursor + cap
            &&& well_formed_trace(m.events)
            &&& progress_reports_monotone(m.events, cursor, total)
        }),
    decreases script.len(),
{
    let m = run_from(cursor, sent, paused, stopped, total, cap, script);
    if stopped || cursor == total {
        assert(m.events.len() == 1);
    } else {
        let w = eligible_window(paused, cursor, sent, total, cap);
        let wins = if w > 0 {
            seq![w]
        } else {
            Seq::<int>::empty()
        };
        let sent2 = if w > 0 {
            sent + w
        } else {
            sent
        };
        assert(0 <= w <= cap);
        assert(sent <= sent2 <= total && sent2 <= cursor + cap);
        if script.len() == 0 {
            assert(m.events.len() == 1);
            assert(forall|k: int| 0 <= k < m.windows.len() ==> 1 <= #[trigger] m.windows[k] <= cap);
        } else {
            match script[0] {
                ScriptItem::Ack(n) => {
                    if cursor + n > sent2 {
                        assert(m.events.len() == 1);
                        assert(forall|k: int|
                            0 <= k < m.windows.len() ==> 1 <= #[trigger] m.windows[k] <= cap);
                    } else {
                        let cursor2 = cursor + n;
                        lemma_flow_control(
                            cursor2,
                            sent2,
                            paused,
                            stopped,
                            total,
                            cap,
                            script.skip(1),
                        );
                        let rest = run_from(cursor2, sent2, paused, stopped, total, cap, script.skip(1));
                        let lead = seq![EventModel::Progress { sent: cursor2, total }];
                        assert(m.windows == wins + rest.windows);
                        assert(m.events == lead + rest.events);
                        assert(forall|k: int|
                            0 <= k < m.windows.len() ==> 1 <= #[trigger] m.windows[k] <= cap);
                        assert(m.events.last() == rest.events.last());
                        assert forall|k: int| 0 <= k < m.events.len() - 1 implies (
                        #[trigger] m.events[k]) is Progress by {
                            if k > 0 {
                                assert(m.events[k] == rest.events[k - 1]);
                            }
                        }
                        assert forall|k: int|
                            0 <= k < m.events.len() implies match #[trigger] m.events[k] {
                            EventModel::Progress { sent: s, total: t } => cursor <= s <= total && t
                                == total,
                            _ => true,
                        } by {
                            if k > 0 {
                                assert(m.events[k] == rest.events[k - 1]);
                            }
                        }
                        assert forall|j: int, k: int|
                            0 <= j < k < m.events.len() implies match (
                        #[trigger] m.events[j], #[trigger] m.events[k]) {
                            (
                                EventModel::Progress { sent: s1, total: _ },
                                EventModel::Progress { sent: s2, total: _ },
                            ) => s1 <= s2,
                            _ => true,
                        } by {
                            assert(m.events[k] == rest.events[k - 1]);
                            if j > 0 {
                                assert(m.events[j] == rest.events[j - 1]);
                            }
                        }
                    }
                },
                ScriptItem::TogglePause => {
                    lemma_flow_control(cursor, sent2, !paused, stopped, total, cap, script.skip(1));
                    let rest = run_from(cursor, sent2, !paused, stopped, total, cap, script.skip(1));
                    assert(m.windows == wins + rest.windows);
                    assert(m.events =~= rest.events);
                    assert(forall|k: int|
                        0 <= k < m.windows.len() ==> 1 <= #[trigger] m.windows[k] <= cap);
                },
                ScriptItem::Stop => {
                    lemma_flow_control(cursor, sent2, paused, true, total, cap, script.skip(1));
                    let rest = run_from(cursor, sent2, paused, true, total, cap, script.skip(1));
                    assert(m.windows == wins + rest.windows);
                    assert(m.events =~= rest.events);
                    assert(forall|k: int|
                        0 <= k < m.windows.len() ==> 1 <= #[trigger] m.windows[k] <= cap);
                },
                ScriptItem::ConnectionLost => {
                    assert(m.events.len() == 1);
                    assert(forall|k: int|
                        0 <= k < m.windows.len() ==> 1 <= #[trigger] m.windows[k] <= cap);
                },
            }
        }
    }
}

/// No occurrence in the script flips the pause flag.
pub open spec fn no_toggle(script: Seq<ScriptItem>) -> bool {
    forall|k: int| 0 <= k < script.len() ==> !((#[trigger] script[k]) is TogglePause)
}

/// Pausing prevents sending: a run that starts paused and is never
/// resumed sends no data window at all, whatever else arrives — it only
/// services acknowledgements until it exits.
pub proof fn lemma_pause_blocks_sends(
    cursor: int,
    sent: int,
    stopped: bool,
    total: int,
    cap: int,
    script: Seq<ScriptItem>,
)
    requires
        no_toggle(script),
    ensures
        run_from(cursor, sent, true, stopped, total, cap, script).windows == Seq::<int>::empty(),
    decreases script.len(),
{
    let m = run_from(cursor, sent, true, stopped, total, cap, script);
    if !stopped && cursor != total && script.len() > 0 {
        assert(no_toggle(script.skip(1))) by {
            assert(forall|k: int|
                0 <= k < script.skip(1).len() ==> script.skip(1)[k] == script[k + 1]);
        }
        match script[0] {
            ScriptItem::Ack(n) => {
                if cursor + n <= sent {
                    lemma_pause_blocks_sends(cursor + n, sent, stopped, total, cap, script.skip(1));
                    assert(m.windows =~= Seq::<int>::empty());
                }
            },
            ScriptItem::TogglePause => {
                assert(false);
            },
            ScriptItem::Stop => {
                lemma_pause_blocks_sends(cursor, sent, true, total, cap, script.skip(1));
                assert(m.windows =~= Seq::<int>::empty());
            },
            ScriptItem::ConnectionLost => {},
        }
    }
}

/// Pausing does not stall acknowledgements: while paused, an in-flight
/// acknowledgement that stays within the written bytes is still folded
/// in — a progress report for it is emitted and the cursor never falls
/// back below it.
pub proof fn lemma_pause_processes_acks(
    cursor: int,
    sent: int,
    total: int,
    cap: int,
    script: Seq<ScriptItem>,
    count: usize,
)
    requires
        cap >= 1,
        0 <= cursor <= sent <= total,
        sent <= cursor + cap,
        cursor != total,
        script.len() >= 1,
        script[0] == ScriptItem::Ack(count),
        cursor + count <= sent,
    ensures
        ({
            let m = run_from(cursor, sent, true, false, total, cap, script);
            &&& m.events.len() >= 1
            &&& m.events[0] == (EventModel::Progress { sent: cursor + count, total })
            &&& m.cursor >= cursor + count
        }),
{
    let rest = run_from(cursor + count, sent, true, false, total, cap, script.skip(1));
    lemma_flow_control(cursor + count, sent, true, false, total, cap, script.skip(1));
    assert(rest.cursor >= cursor + count);
}

/// Stopping is prompt: when a stop request is the next occurrence the
/// loop sees, at most one already-committed window goes out before the
/// loop exits, no further acknowledgement moves the cursor, and the run
/// ends stopped (or complete, had the stream already finished).
pub proof fn lemma_stop_latency(
    cursor: int,
    sent: int,
    paused: bool,
    total: int,
    cap: int,
    script: Seq<ScriptItem>,
)
    requires
        script.len() >= 1,
        script[0] == ScriptItem::Stop,
    ensures
        ({
            let m = run_from(cursor, sent, paused, false, total, cap, script);
            &&& m.windows.len() <= 1
            &&& m.events.len() >= 1
            &&& (m.events.last() == EventModel::Stopped || m.events.last() == EventModel::Complete)
            &&& m.cursor == cursor
        }),
{
    let m = run_from(cursor, sent, paused, false, total, cap, script);
    if cursor != total {
        let w = eligible_window(paused, cursor, sent, total, cap);
        let sent2 = if w > 0 {
            sent + w
        } else {
            sent
        };
        let rest = run_from(cursor, sent2, paused, true, total, cap, script.skip(1));
        assert(rest.events == seq![EventModel::Stopped]);
        assert(m.events =~= seq![EventModel::Stopped]);
    }
}

/// The script of a firmware that acknowledges each window in full: one
/// acknowledgement of `cap` bytes per full window, then one for the
/// remainder.
pub open spec fn full_ack_script(remaining: int, cap: int) -> Seq<ScriptItem>
    decreases remaining,
{
    if remaining <= 0 || cap < 1 {
        Seq::empty()
    } else if remaining <= cap {
        seq![ScriptItem::Ack(remaining as usize)]
    } else {
        seq![ScriptItem::Ack(cap as usize)] + full_ack_script(remaining - cap, cap)
    }
}

/// The windows that partition `remaining` bytes by `cap`: full windows
/// of `cap` bytes, then the remainder.
pub open spec fn full_windows(remaining: int, cap: int) -> Seq<int>
    decreases remaining,
{
    if remaining <= 0 || cap < 1 {
        Seq::empty()
    } else if remaining <= cap {
        seq![remaining]
    } else {
        seq![cap] + full_windows(remaining - cap, cap)
    }
}

/// A cooperative firmware drives the stream to completion: starting with
/// nothing in flight, a firmware that acknowledges every window in full
/// receives the remaining bytes as exactly the windows that partition
/// them by its capacity, and the run ends complete with every byte sent
/// and acknowledged.
pub proof fn lemma_full_acknowledgement_completes(cursor: int, total: int, cap: int)
    requires
        1 <= cap <= usize::MAX,
        0 <= cursor <= total <= usize::MAX,
    ensures
        ({
            let m = run_from(
                cursor,
                cursor,
                false,
                false,
                total,
                cap,
                full_ack_script(total - cursor, cap),
            );
            &&& m.windows == full_windows(total - cursor, cap)
            &&& m.events.len() >= 1
            &&& m.events.last() == EventModel::Complete
            &&& m.cursor == total
            &&& m.sent == total
        }),
    decreases total - cursor,
{
    let remaining = total - cursor;
    let script = full_ack_script(remaining, cap);
    let m = run_from(cursor, cursor, false, false, total, cap, script);
    if cursor == total {
        assert(m.windows =~= full_windows(0, cap));
    } else {
        let w = eligible_window(false, cursor, cursor, total, cap);
        assert(w == if remaining <= cap {
            remaining
        } else {
            cap
        });
        assert(script[0] == ScriptItem::Ack(w as usize));
        assert(script.skip(1) =~= full_ack_script(remaining - w, cap));
        lemma_full_acknowledgement_completes(cursor + w, total, cap);
        let rest = run_from(
            cursor + w,
            cursor + w,
            false,
            false,
            total,
            cap,
            full_ack_script(remaining - w, cap),
        );
        assert(m.windows == seq![w] + rest.windows);
        assert(m.windows =~= full_windows(remaining, cap));
        assert(m.events == seq![EventModel::Progress { sent: cursor + w, total }] + rest.events);
        assert(m.events.last() == rest.events.last());
    }
}

/// A fresh session is unaffected by history: any two session states left
/// behind by teardown — whether the previous run completed, was stopped,
/// or failed — drive a new stream of the same length, capacity and script
/// to exactly the same windows, events and final positions.
pub proof fn lemma_fresh_session_unaffected_by_history(
    before: SessionState,
    after: SessionState,
    total: int,
    cap: int,
    script: Seq<ScriptItem>,
)
    requires
        before.is_reset(),
        after.is_reset(),
    ensures
        run_from(
            before.send_cursor as int,
            0,
            before.paused,
            before.stop_requested,
            total,
            cap,
            script,
        ) == run_from(
            after.send_cursor as int,
            0,
            after.paused,
            after.stop_requested,
            total,
            cap,
            script,
        ),
{
}

} // verus!
