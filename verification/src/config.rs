//! The immutable data a session works on: the machine's declared limits
//! and the instruction stream to send.

use vstd::prelude::*;

verus! {

/// What the firmware declares about itself in the connection handshake.
/// Immutable for the lifetime of one connection.
#[derive(Clone, Copy, Debug, PartialEq, Eq, Structural)]
pub struct MachineConfig {
    /// How many instruction bytes the firmware can hold unprocessed.
    /// A handshake reply declaring zero capacity is rejected as malformed,
    /// so a parsed config always has capacity for at least one byte.
    pub instruction_buffer_size: usize,
    /// The fastest motor step rate the firmware accepts, in steps per second.
    pub max_motor_speed: u32,
    /// The shortest step pulse the firmware accepts, in microseconds.
    pub min_pulse_width: u32,
    /// The wire protocol revision the firmware speaks.
    pub protocol_version: u8,
}

impl MachineConfig {
    /// A usable configuration: the firmware can buffer at least one byte,
    /// so a stream of any length can make progress.
    pub open spec fn well_formed(&self) -> bool {
        self.instruction_buffer_size >= 1
    }
}

/// An immutable binary command stream for one drawing. The session treats
/// it as opaque bytes: only length and byte content matter here. The
/// starting pen offset that accompanies it is geometry, consumed by the
/// embedder's move-to-start command, not by the stream itself.
pub struct InstructionSet {
    bytes: Vec<u8>,
}

impl View for InstructionSet {
    type V = Seq<u8>;

    closed spec fn view(&self) -> Seq<u8> {
        self.bytes@
    }
}

impl InstructionSet {
    /// Wraps a finished instruction binary.
    pub fn new(bytes: Vec<u8>) -> (r: Self)
        ensures
            r@ == bytes@,
    {
        InstructionSet { bytes }
    }

    /// How many instruction bytes the stream holds.
    pub fn len(&self) -> (n: usize)
        ensures
            n == self@.len(),
    {
        self.bytes.len()
    }

    /// The whole instruction binary.
    pub fn get_binary(&self) -> (r: &Vec<u8>)
        ensures
            r@ == self@,
    {
        &self.bytes
    }

    /// Copies the window of bytes at `start` of length `len`, the unit a
    /// streaming round hands to the wire.
    pub fn window(&self, start: usize, len: usize) -> (r: Vec<u8>)
        requires
            start + len <= self@.len(),
        ensures
            r@ == self@.subrange(start as int, start + len),
    {
        let n = self.bytes.len();
        let mut out: Vec<u8> = Vec::new();
        let mut i: usize = 0;
        while i < len
            invariant
                i <= len,
                n == self@.len(),
                start + len <= n,
                out@ == self@.subrange(start as int, start + i),
            decreases len - i,
        {
            out.push(self.bytes[start + i]);
            i = i + 1;
            assert(out@ =~= self@.subrange(start as int, start + i));
        }
        out
    }
}

} // verus!
