//! The shared session state and the short-lived commands that act on it.
//!
//! One `SessionState` exists per process; the embedder guards it with a
//! mutex (or one lock per field, acquired in a fixed order: write half,
//! then read half, then flags) and lets the streaming loop and the
//! pause/stop commands reach it concurrently. The library sees each
//! command as one atomic step on the state, taken while the lock is held.

use vstd::prelude::*;

use crate::errors::SessionError;

verus! {

/// Identifies one physical connection. The embedder assigns an id when it
/// opens a socket and keeps the actual read and write halves under that
/// id; the state records which connection, if any, is installed.
#[derive(Clone, Copy, Debug, PartialEq, Eq, Structural)]
pub struct ConnectionId(pub u64);

/// The mutable state one streaming session shares with the pause and stop
/// commands. Its lifetime is the process; its contents are replaced per
/// connection. Both halves are installed together after a successful
/// handshake and cleared together on teardown, so a connection is whole
/// or absent.
pub struct SessionState {
    /// The write endpoint of the installed connection, if one is active.
    /// Control frames (pause, stop) go out on this half beside the loop's
    /// own data frames, serialized by the embedder's write lock.
    pub write_half: Option<ConnectionId>,
    /// The read endpoint of the installed connection, if one is active.
    /// Only the streaming loop reads acknowledgements from it.
    pub read_half: Option<ConnectionId>,
    /// Whether sending is suspended. Meaningful only while a connection
    /// is active; forced to `false` on teardown.
    pub paused: bool,
    /// How many instruction bytes have been sent and acknowledged: an
    /// index into the instruction stream. Reset to zero exactly when a
    /// connection is torn down or a new stream begins.
    pub send_cursor: usize,
    /// The cooperative cancellation token: set by the stop command, read
    /// by the streaming loop between rounds, cleared on teardown.
    pub stop_requested: bool,
}

impl SessionState {
    /// A connection is installed: the session is active.
    pub open spec fn active(&self) -> bool {
        self.write_half is Some
    }

    /// A connection is whole or absent: the two halves are installed and
    /// cleared together, and when present they belong to one connection.
    pub open spec fn halves_paired(&self) -> bool {
        match (self.write_half, self.read_half) {
            (Option::Some(w), Option::Some(r)) => w == r,
            (Option::None, Option::None) => true,
            _ => false,
        }
    }

    /// The state a fresh process starts in and every teardown returns to:
    /// no connection, not paused, cursor at zero, no stop pending.
    pub open spec fn is_reset(&self) -> bool {
        &&& self.write_half is None
        &&& self.read_half is None
        &&& !self.paused
        &&& self.send_cursor == 0
        &&& !self.stop_requested
    }

    /// Creates the process-wide state, empty of any connection.
    pub fn new() -> (r: Self)
        ensures
            r.is_reset(),
    {
        SessionState {
            write_half: Option::None,
            read_half: Option::None,
            paused: false,
            send_cursor: 0,
            stop_requested: false,
        }
    }

    /// Reports whether a connection is installed, the test every command
    /// makes before touching the wire.
    pub fn is_active(&self) -> (r: bool)
        ensures
            r == self.active(),
    {
        self.write_half.is_some()
    }

    /// Installs both halves of a freshly handshaken connection and starts
    /// a new stream: the cursor returns to zero, sending is live, and no
    /// stop is pending.
    pub fn install_connection(&mut self, conn: ConnectionId)
        requires
            !old(self).active(),
        ensures
            final(self).write_half == Option::Some(conn),
            final(self).read_half == Option::Some(conn),
            !final(self).paused,
            final(self).send_cursor == 0,
            !final(self).stop_requested,
            final(self).halves_paired(),
    {
        self.write_half = Option::Some(conn);
        self.read_half = Option::Some(conn);
        self.paused = false;
        self.send_cursor = 0;
        self.stop_requested = false;
    }

    /// The pause/resume command: flips the paused flag and reports the new
    /// value, which the embedder forwards to the firmware as a pause
    /// control frame. Pausing with no connection installed is a caller
    /// logic error and is surfaced as `NoActiveSessionError`, with the
    /// state untouched.
    pub fn toggle_pause(&mut self) -> (r: Result<bool, SessionError>)
        ensures
            !old(self).active() ==> r == Result::<bool, SessionError>::Err(
                SessionError::NoActiveSessionError,
            ) && *final(self) == *old(self),
            old(self).active() ==> r == Result::<bool, SessionError>::Ok(!old(self).paused)
                && *final(self) == (SessionState { paused: !old(self).paused, ..*old(self) }),
    {
        if self.write_half.is_some() {
            self.paused = !self.paused;
            Result::Ok(self.paused)
        } else {
            Result::Err(SessionError::NoActiveSessionError)
        }
    }

    /// The stop command: raises the cancellation token and reports whether
    /// a stop control frame should go out on the write half. With no
    /// active session this is a harmless no-op, not an error — a stop may
    /// race with a loop that has already exited — and the state is left
    /// exactly as it was.
    pub fn request_stop(&mut self) -> (sent: bool)
        ensures
            !old(self).active() ==> sent == false && *final(self) == *old(self),
            old(self).active() ==> sent == true && *final(self) == (SessionState {
                stop_requested: true,
                ..*old(self)
            }),
    {
        if self.write_half.is_some() {
            self.stop_requested = true;
            true
        } else {
            false
        }
    }

    /// The sole teardown path: clears both halves, forces the paused flag
    /// off, returns the cursor to zero and drops any pending stop. The
    /// streaming loop runs this on every exit — completion, stop, or
    /// error — so a later session never sees stale state.
    pub fn teardown(&mut self)
        ensures
            final(self).is_reset(),
    {
        self.write_half = Option::None;
        self.read_half = Option::None;
        self.paused = false;
        self.send_cursor = 0;
        self.stop_requested = false;
    }
}

impl Default for SessionState {
    /// The same empty state `new` builds.
    fn default() -> (r: Self)
        ensures
            r.is_reset(),
    {
        SessionState::new()
    }
}

} // verus!
