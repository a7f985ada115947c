use vstd::prelude::*;
use crate::frame::{Frame, FrameView, compose_id, pgn_of, priority_of, source_of, destination_of};

verus! {

/// Bytes before the payload in a received message with echo turned on:
/// timestamp (4), echo flag (1), parameter group (3), priority (1),
/// source (1), destination (1).
pub const RX_HEADER_LEN: usize = 11;

/// Bytes before the payload in a message to transmit: parameter group (3),
/// priority (1), source (1), destination (1).
pub const TX_HEADER_LEN: usize = 6;

/// Command that protects an address on the network.
pub const CMD_PROTECT_J1939_ADDRESS: u16 = 19;

/// Command that turns the echo of transmitted messages on or off.
pub const CMD_ECHO_TRANSMITTED_MESSAGES: u16 = 16;

/// Command that lets every message through the adapter's filters.
pub const CMD_SET_ALL_FILTERS_STATES_TO_PASS: u16 = 3;

/// A return code of the driver is a success when it lies in 0..=127.
pub open spec fn is_success_code(v: i16) -> bool {
    0 <= v <= 127
}

/// The driver's return code as a result: the code itself on success, else
/// the code as the error.
pub fn verify_return(v: i16) -> (r: Result<i16, i16>)
    ensures
        is_success_code(v) ==> r == Ok::<i16, i16>(v),
        !is_success_code(v) ==> r == Err::<i16, i16>(v),
{
    if v < 0 || v > 127 {
        Err(v)
    } else {
        Ok(v)
    }
}

/// What the size returned by a read means.
#[derive(Debug, PartialEq, Eq, Structural)]
pub enum ReadOutcome {
    /// This many bytes of message were read.
    Data(usize),
    /// No message was waiting.
    Empty,
    /// The read failed with this error code (the negated size).
    Error(i32),
}

pub fn classify_read(size: i16) -> (r: ReadOutcome)
    ensures
        size > 0 ==> r == ReadOutcome::Data(size as usize),
        size == 0 ==> r == ReadOutcome::Empty,
        size < 0 ==> r == ReadOutcome::Error((-(size as int)) as i32),
{
    if size > 0 {
        ReadOutcome::Data(size as usize)
    } else if size == 0 {
        ReadOutcome::Empty
    } else {
        ReadOutcome::Error(-(size as i32))
    }
}

/// Big-endian value of four bytes.
pub open spec fn be32(b0: u8, b1: u8, b2: u8, b3: u8) -> nat {
    (b0 as nat) * 0x1000000 + (b1 as nat) * 0x10000 + (b2 as nat) * 0x100 + (b3 as nat)
}

/// Little-endian value of three bytes.
pub open spec fn le24(b0: u8, b1: u8, b2: u8) -> u32 {
    ((b0 as nat) + (b1 as nat) * 0x100 + (b2 as nat) * 0x10000) as u32
}

/// The frame a received message stands for. The adapter's timestamp is
/// scaled by `weight_milli` thousandths and rounded down.
pub open spec fn decoded(channel: u8, b: Seq<u8>, weight_milli: u32) -> FrameView {
    FrameView {
        channel,
        id: compose_id(b[8], le24(b[5], b[6], b[7]), b[10], b[9]),
        payload: b.subrange(RX_HEADER_LEN as int, b.len() as int),
        timestamp: ((be32(b[0], b[1], b[2], b[3]) * (weight_milli as nat)) / 1000) as u64,
    }
}

/// Decodes a received message; `None` when it is shorter than its header.
pub fn decode_rp1210(channel: u8, buf: &[u8], weight_milli: u32) -> (r: Option<Frame>)
    ensures
        buf@.len() < RX_HEADER_LEN ==> r is None,
        buf@.len() >= RX_HEADER_LEN ==> (r matches Some(f) && f@ == decoded(channel, buf@, weight_milli)),
{
    if buf.len() < RX_HEADER_LEN {
        return None;
    }
    let raw = (buf[0] as u64) * 0x1000000 + (buf[1] as u64) * 0x10000 + (buf[2] as u64) * 0x100
        + (buf[3] as u64);
    assert(raw <= 0xFFFF_FFFF);
    assert(raw * (weight_milli as u64) <= 0xFFFF_FFFF * 0xFFFF_FFFF) by (nonlinear_arith)
        requires
            raw <= 0xFFFF_FFFF,
            weight_milli <= 0xFFFF_FFFF,
    ;
    let timestamp = raw * (weight_milli as u64) / 1000;
    let pgn = ((buf[5] as u32) + (buf[6] as u32) * 0x100 + (buf[7] as u32) * 0x10000) as u32;
    let priority = buf[8];
    let source = buf[9];
    let destination = buf[10];
    let p = pgn & 0x3FFFFu32;
    let p = if ((p >> 8u32) & 0xFFu32) < 240 {
        (p & 0x3FF00u32) | (destination as u32)
    } else {
        p
    };
    let id = (((priority as u32) & 7u32) << 26u32) | (p << 8u32) | (source as u32);
    let mut payload: Vec<u8> = Vec::new();
    let mut i: usize = RX_HEADER_LEN;
    while i < buf.len()
        invariant
            RX_HEADER_LEN <= i <= buf@.len(),
            payload@ == buf@.subrange(RX_HEADER_LEN as int, i as int),
        decreases buf@.len() - i,
    {
        payload.push(buf[i]);
        i = i + 1;
        assert(payload@ =~= buf@.subrange(RX_HEADER_LEN as int, i as int));
    }
    Some(Frame { channel, id, payload, timestamp })
}

/// The bytes handed to the driver to transmit a frame.
pub open spec fn encoded(f: FrameView) -> Seq<u8> {
    let pgn = pgn_of(f.id);
    seq![
        (pgn & 0xFFu32) as u8,
        ((pgn >> 8u32) & 0xFFu32) as u8,
        ((pgn >> 16u32) & 0xFFu32) as u8,
        priority_of(f.id),
        source_of(f.id),
        destination_of(f.id),
    ] + f.payload
}

pub fn encode_rp1210(frame: &Frame) -> (r: Vec<u8>)
    ensures
        r@ == encoded(frame@),
{
    let pgn = frame.pgn();
    let mut out: Vec<u8> = Vec::new();
    out.push((pgn & 0xFFu32) as u8);
    out.push(((pgn >> 8u32) & 0xFFu32) as u8);
    out.push(((pgn >> 16u32) & 0xFFu32) as u8);
    out.push(frame.priority());
    out.push(frame.source_address());
    out.push(frame.destination_address());
    let ghost head = out@;
    let mut i: usize = 0;
    while i < frame.payload.len()
        invariant
            i <= frame.payload@.len(),
            out@ == head + frame.payload@.subrange(0, i as int),
        decreases frame.payload@.len() - i,
    {
        out.push(frame.payload[i]);
        i = i + 1;
        assert(out@ =~= head + frame.payload@.subrange(0, i as int));
    }
    assert(frame.payload@.subrange(0, i as int) =~= frame.payload@);
    assert(out@ =~= encoded(frame@));
    out
}

/// The command that protects `address`, claiming it and blocking until the claim is done.
pub open spec fn protect_address_args(address: u8) -> Seq<u8> {
    seq![address, 0, 0, 0xE0, 0xFF, 0, 0x81, 0, 0, 0]
}

/// The commands sent after the client connects, in order: protect the
/// address (unless the application packetizes), echo transmitted messages,
/// let everything through the filters.
pub open spec fn connect_commands_spec(address: u8, app_packetize: bool) -> Seq<(u16, Seq<u8>)> {
    let tail = seq![
        (CMD_ECHO_TRANSMITTED_MESSAGES, seq![1u8]),
        (CMD_SET_ALL_FILTERS_STATES_TO_PASS, Seq::<u8>::empty()),
    ];
    if app_packetize {
        tail
    } else {
        seq![(CMD_PROTECT_J1939_ADDRESS, protect_address_args(address))] + tail
    }
}

pub fn connect_commands(address: u8, app_packetize: bool) -> (r: Vec<(u16, Vec<u8>)>)
    ensures
        r@.len() == connect_commands_spec(address, app_packetize).len(),
        forall|i: int|
            0 <= i < r@.len() ==> (#[trigger] r@[i]).0 == connect_commands_spec(
                address,
                app_packetize,
            )[i].0 && r@[i].1@ == connect_commands_spec(address, app_packetize)[i].1,
{
    let mut r: Vec<(u16, Vec<u8>)> = Vec::new();
    if !app_packetize {
        let args: Vec<u8> = vec![address, 0, 0, 0xE0, 0xFF, 0, 0x81, 0, 0, 0];
        assert(args@ =~= protect_address_args(address));
        r.push((CMD_PROTECT_J1939_ADDRESS, args));
    }
    let echo: Vec<u8> = vec![1u8];
    assert(echo@ =~= seq![1u8]);
    r.push((CMD_ECHO_TRANSMITTED_MESSAGES, echo));
    let none: Vec<u8> = Vec::new();
    r.push((CMD_SET_ALL_FILTERS_STATES_TO_PASS, none));
    assert(none@ =~= Seq::<u8>::empty());
    r
}

} // verus!
