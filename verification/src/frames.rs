//! The wire framing the session speaks: a handshake message pair, data
//! frames carrying raw instruction bytes, acknowledgement frames carrying
//! a consumed-byte count, and pause/stop control frames.
//!
//! Every frame starts with a one-byte tag; multi-byte counts travel as
//! four little-endian bytes. The encoders and parsers here are pure
//! functions on byte sequences; the embedder moves the bytes over the
//! socket.

use vstd::arithmetic::div_mod::{
    lemma_div_denominator,
    lemma_fundamental_div_mod,
    lemma_fundamental_div_mod_converse_div,
    lemma_fundamental_div_mod_converse_mod,
};
use vstd::prelude::*;

use crate::config::MachineConfig;
use crate::errors::SessionError;

verus! {

/// The one protocol revision this library speaks. A handshake reply
/// declaring any other version is rejected.
pub const SUPPORTED_PROTOCOL_VERSION: u8 = 1;

/// Tag of the fixed greeting the session opens a connection with.
pub const TAG_HELLO: u8 = 1;

/// Tag of the firmware's handshake reply carrying its `MachineConfig`.
pub const TAG_CONFIG: u8 = 2;

/// Tag of a data frame carrying raw instruction bytes.
pub const TAG_DATA: u8 = 3;

/// Tag of an acknowledgement frame carrying a consumed-byte count.
pub const TAG_ACK: u8 = 4;

/// Tag of a pause/resume control frame carrying the new paused flag.
pub const TAG_PAUSE: u8 = 5;

/// Tag of the stop control frame, which has no payload.
pub const TAG_STOP: u8 = 6;

/// A handshake reply is a tag, three four-byte counts and a version byte.
pub const HANDSHAKE_REPLY_LEN: usize = 14;

/// An acknowledgement frame is a tag and one four-byte count.
pub const ACK_FRAME_LEN: usize = 5;

/// The four little-endian bytes of a 32-bit value.
pub open spec fn u32_le(v: u32) -> Seq<u8> {
    seq![
        (v % 256) as u8,
        ((v / 256) % 256) as u8,
        ((v / 65536) % 256) as u8,
        ((v / 16777216) % 256) as u8,
    ]
}

/// The value four little-endian bytes carry.
pub open spec fn le_val(b: Seq<u8>) -> int
    recommends
        b.len() == 4,
{
    b[0] + 256 * b[1] + 65536 * b[2] + 16777216 * b[3]
}

/// Little-endian encoding loses nothing: the bytes of a value carry that
/// value.
pub proof fn lemma_u32_le_val(v: u32)
    ensures
        le_val(u32_le(v)) == v,
{
    let x = v as int;
    lemma_fundamental_div_mod(x, 256);
    lemma_fundamental_div_mod(x / 256, 256);
    lemma_fundamental_div_mod(x / 256 / 256, 256);
    lemma_div_denominator(x, 256, 256);
    lemma_div_denominator(x, 65536, 256);
    lemma_div_denominator(x / 256, 256, 256);
    assert(x / 16777216 < 256) by {
        assert(x < 16777216 * 256);
        assert(x / 16777216 <= x / 16777216);
        vstd::arithmetic::div_mod::lemma_multiply_divide_lt(x, 16777216, 256);
    }
    assert(x / 16777216 % 256 == x / 16777216) by {
        vstd::arithmetic::div_mod::lemma_small_mod((x / 16777216) as nat, 256);
    }
}

/// Four bytes decode to the value they encode: the inverse direction of
/// `lemma_u32_le_val`.
pub proof fn lemma_le_val_bytes(b: Seq<u8>)
    requires
        b.len() == 4,
    ensures
        0 <= le_val(b) < 0x1_0000_0000,
        u32_le(le_val(b) as u32) == b,
{
    let v = le_val(b);
    let b0 = b[0] as int;
    let b1 = b[1] as int;
    let b2 = b[2] as int;
    let b3 = b[3] as int;
    assert(v == b0 + 256 * (b1 + 256 * (b2 + 256 * b3)));
    lemma_fundamental_div_mod_converse_mod(v, 256, b1 + 256 * (b2 + 256 * b3), b0);
    lemma_fundamental_div_mod_converse_div(v, 256, b1 + 256 * (b2 + 256 * b3), b0);
    let q1 = b1 + 256 * (b2 + 256 * b3);
    lemma_fundamental_div_mod_converse_mod(q1, 256, b2 + 256 * b3, b1);
    lemma_fundamental_div_mod_converse_div(q1, 256, b2 + 256 * b3, b1);
    let q2 = b2 + 256 * b3;
    lemma_fundamental_div_mod_converse_mod(q2, 256, b3, b2);
    lemma_fundamental_div_mod_converse_div(q2, 256, b3, b2);
    lemma_fundamental_div_mod_converse_mod(b3, 256, 0, b3);
    lemma_fundamental_div_mod_converse_div(b3, 256, 0, b3);
    lemma_div_denominator(v, 256, 256);
    lemma_div_denominator(v, 65536, 256);
    lemma_div_denominator(q1, 256, 256);
    let w = v as u32;
    assert(w == v);
    assert(u32_le(w) =~= b);
}

/// Appends the four little-endian bytes of `v`.
pub fn push_u32_le(out: &mut Vec<u8>, v: u32)
    ensures
        final(out)@ == old(out)@ + u32_le(v),
{
    out.push((v % 256) as u8);
    out.push((v / 256 % 256) as u8);
    out.push((v / 65536 % 256) as u8);
    out.push((v / 16777216 % 256) as u8);
    assert(out@ =~= old(out)@ + u32_le(v));
}

/// Reads the 32-bit value whose little-endian bytes sit at `off`.
pub fn read_u32_le(b: &Vec<u8>, off: usize) -> (v: u32)
    requires
        off + 4 <= b@.len(),
    ensures
        v == le_val(b@.subrange(off as int, off + 4)),
        u32_le(v) == b@.subrange(off as int, off + 4),
{
    let n = b.len();
    assert(off + 4 <= n);
    let v = b[off] as u32 + 256 * (b[off + 1] as u32) + 65536 * (b[off + 2] as u32) + 16777216
        * (b[off + 3] as u32);
    proof {
        let s = b@.subrange(off as int, off + 4);
        assert(s[0] == b@[off as int]);
        assert(s[1] == b@[off + 1]);
        assert(s[2] == b@[off + 2]);
        assert(s[3] == b@[off + 3]);
        lemma_le_val_bytes(s);
    }
    v
}

/// The greeting that opens a handshake: a tag and the protocol revision
/// the session speaks.
pub open spec fn handshake_request_bytes() -> Seq<u8> {
    seq![TAG_HELLO, SUPPORTED_PROTOCOL_VERSION]
}

/// Encodes the handshake greeting.
pub fn encode_handshake_request() -> (r: Vec<u8>)
    ensures
        r@ == handshake_request_bytes(),
{
    let mut out: Vec<u8> = Vec::new();
    out.push(TAG_HELLO);
    out.push(SUPPORTED_PROTOCOL_VERSION);
    assert(out@ =~= handshake_request_bytes());
    out
}

/// The handshake reply the firmware answers with: its tag, the three
/// counts of `MachineConfig` as little-endian bytes, and the protocol
/// revision it speaks.
pub open spec fn handshake_reply_bytes(c: MachineConfig) -> Seq<u8> {
    seq![TAG_CONFIG] + u32_le(c.instruction_buffer_size as u32) + u32_le(c.max_motor_speed)
        + u32_le(c.min_pulse_width) + seq![c.protocol_version]
}

/// Encodes a handshake reply. The counterpart of `parse_handshake_reply`,
/// spoken by the firmware side; the session itself only parses replies.
pub fn encode_handshake_reply(c: &MachineConfig) -> (r: Vec<u8>)
    requires
        c.instruction_buffer_size <= u32::MAX,
    ensures
        r@ == handshake_reply_bytes(*c),
{
    let mut out: Vec<u8> = Vec::new();
    out.push(TAG_CONFIG);
    push_u32_le(&mut out, c.instruction_buffer_size as u32);
    push_u32_le(&mut out, c.max_motor_speed);
    push_u32_le(&mut out, c.min_pulse_width);
    out.push(c.protocol_version);
    assert(out@ =~= handshake_reply_bytes(*c));
    out
}

/// What a byte sequence means as a handshake reply: the machine's
/// declared limits, or nothing if the reply is malformed — wrong length,
/// wrong tag, a protocol revision this library does not speak, or a
/// declared buffer that could never hold a byte.
pub open spec fn parse_handshake_reply_spec(b: Seq<u8>) -> Option<MachineConfig> {
    if b.len() == HANDSHAKE_REPLY_LEN && b[0] == TAG_CONFIG && b[13]
        == SUPPORTED_PROTOCOL_VERSION && le_val(b.subrange(1, 5)) >= 1 {
        Option::Some(
            MachineConfig {
                instruction_buffer_size: le_val(b.subrange(1, 5)) as usize,
                max_motor_speed: le_val(b.subrange(5, 9)) as u32,
                min_pulse_width: le_val(b.subrange(9, 13)) as u32,
                protocol_version: b[13],
            },
        )
    } else {
        Option::None
    }
}

/// Parses the firmware's handshake reply into its `MachineConfig`. Fails
/// with `ProtocolError` exactly on the replies `parse_handshake_reply_spec`
/// gives no meaning to; a parsed config is always well formed.
pub fn parse_handshake_reply(b: &Vec<u8>) -> (r: Result<MachineConfig, SessionError>)
    ensures
        match parse_handshake_reply_spec(b@) {
            Option::Some(c) => r == Result::<MachineConfig, SessionError>::Ok(c),
            Option::None => r == Result::<MachineConfig, SessionError>::Err(
                SessionError::ProtocolError,
            ),
        },
        r is Ok ==> r.unwrap().well_formed(),
{
    if b.len() != HANDSHAKE_REPLY_LEN {
        return Result::Err(SessionError::ProtocolError);
    }
    if b[0] != TAG_CONFIG || b[13] != SUPPORTED_PROTOCOL_VERSION {
        return Result::Err(SessionError::ProtocolError);
    }
    let buffer_size = read_u32_le(b, 1);
    if buffer_size < 1 {
        return Result::Err(SessionError::ProtocolError);
    }
    let max_motor_speed = read_u32_le(b, 5);
    let min_pulse_width = read_u32_le(b, 9);
    Result::Ok(
        MachineConfig {
            instruction_buffer_size: buffer_size as usize,
            max_motor_speed,
            min_pulse_width,
            protocol_version: b[13],
        },
    )
}

/// A data frame: its tag, the window length as little-endian bytes, and
/// the raw instruction bytes of the window.
pub open spec fn data_frame_bytes(payload: Seq<u8>) -> Seq<u8> {
    seq![TAG_DATA] + u32_le(payload.len() as u32) + payload
}

/// Encodes one window of instruction bytes as a data frame.
pub fn encode_data_frame(payload: &Vec<u8>) -> (r: Vec<u8>)
    requires
        payload@.len() <= u32::MAX,
    ensures
        r@ == data_frame_bytes(payload@),
{
    let mut out: Vec<u8> = Vec::new();
    out.push(TAG_DATA);
    push_u32_le(&mut out, payload.len() as u32);
    let mut i: usize = 0;
    while i < payload.len()
        invariant
            i <= payload@.len(),
            out@ == seq![TAG_DATA] + u32_le(payload@.len() as u32) + payload@.subrange(0, i as int),
        decreases payload@.len() - i,
    {
        out.push(payload[i]);
        i = i + 1;
        assert(out@ =~= seq![TAG_DATA] + u32_le(payload@.len() as u32) + payload@.subrange(
            0,
            i as int,
        ));
    }
    assert(payload@.subrange(0, payload@.len() as int) =~= payload@);
    out
}

/// An acknowledgement frame: its tag and the consumed-byte count as
/// little-endian bytes.
pub open spec fn ack_frame_bytes(count: u32) -> Seq<u8> {
    seq![TAG_ACK] + u32_le(count)
}

/// Encodes an acknowledgement frame. The counterpart of
/// `parse_ack_frame`, spoken by the firmware side.
pub fn encode_ack_frame(count: u32) -> (r: Vec<u8>)
    ensures
        r@ == ack_frame_bytes(count),
{
    let mut out: Vec<u8> = Vec::new();
    out.push(TAG_ACK);
    push_u32_le(&mut out, count);
    assert(out@ =~= ack_frame_bytes(count));
    out
}

/// What a byte sequence means as an acknowledgement: the consumed-byte
/// count it carries, or nothing if it is not a well-formed ack frame.
pub open spec fn parse_ack_frame_spec(b: Seq<u8>) -> Option<u32> {
    if b.len() == ACK_FRAME_LEN && b[0] == TAG_ACK {
        Option::Some(le_val(b.subrange(1, 5)) as u32)
    } else {
        Option::None
    }
}

/// Parses an acknowledgement frame into the count of instruction bytes
/// the firmware has consumed. Fails with `ProtocolError` exactly on the
/// frames `parse_ack_frame_spec` gives no meaning to.
pub fn parse_ack_frame(b: &Vec<u8>) -> (r: Result<u32, SessionError>)
    ensures
        match parse_ack_frame_spec(b@) {
            Option::Some(n) => r == Result::<u32, SessionError>::Ok(n),
            Option::None => r == Result::<u32, SessionError>::Err(SessionError::ProtocolError),
        },
{
    if b.len() != ACK_FRAME_LEN || b[0] != TAG_ACK {
        return Result::Err(SessionError::ProtocolError);
    }
    Result::Ok(read_u32_le(b, 1))
}

/// A pause/resume control frame: its tag and the new paused flag as one
/// byte.
pub open spec fn pause_frame_bytes(paused: bool) -> Seq<u8> {
    seq![TAG_PAUSE, if paused { 1u8 } else { 0u8 }]
}

/// Encodes the control frame that tells the firmware its new pause state.
pub fn encode_pause_frame(paused: bool) -> (r: Vec<u8>)
    ensures
        r@ == pause_frame_bytes(paused),
{
    let mut out: Vec<u8> = Vec::new();
    out.push(TAG_PAUSE);
    out.push(if paused { 1 } else { 0 });
    assert(out@ =~= pause_frame_bytes(paused));
    out
}

/// The stop control frame: a bare tag, no payload.
pub open spec fn stop_frame_bytes() -> Seq<u8> {
    seq![TAG_STOP]
}

/// Encodes the control frame that asks the firmware to stop.
pub fn encode_stop_frame() -> (r: Vec<u8>)
    ensures
        r@ == stop_frame_bytes(),
{
    let mut out: Vec<u8> = Vec::new();
    out.push(TAG_STOP);
    assert(out@ =~= stop_frame_bytes());
    out
}

/// A well-formed handshake reply parses back to the config it encodes:
/// the handshake loses nothing the session later relies on.
pub proof fn lemma_handshake_reply_roundtrip(c: MachineConfig)
    requires
        c.well_formed(),
        c.instruction_buffer_size <= u32::MAX,
        c.protocol_version == SUPPORTED_PROTOCOL_VERSION,
    ensures
        parse_handshake_reply_spec(handshake_reply_bytes(c)) == Option::Some(c),
{
    let b = handshake_reply_bytes(c);
    assert(b.subrange(1, 5) =~= u32_le(c.instruction_buffer_size as u32));
    assert(b.subrange(5, 9) =~= u32_le(c.max_motor_speed));
    assert(b.subrange(9, 13) =~= u32_le(c.min_pulse_width));
    lemma_u32_le_val(c.instruction_buffer_size as u32);
    lemma_u32_le_val(c.max_motor_speed);
    lemma_u32_le_val(c.min_pulse_width);
}

/// An acknowledgement frame parses back to the count it encodes.
pub proof fn lemma_ack_frame_roundtrip(count: u32)
    ensures
        parse_ack_frame_spec(ack_frame_bytes(count)) == Option::Some(count),
{
    let b = ack_frame_bytes(count);
    assert(b.subrange(1, 5) =~= u32_le(count));
    lemma_u32_le_val(count);
}

} // verus!
