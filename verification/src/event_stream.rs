//! The answer to a command as a stream of framed events.
//!
//! A frame is a length, the length of its headers, a checksum of these two, the headers, a JSON
//! payload and a checksum of everything before it. Numbers are big-endian.

use vstd::prelude::*;
use vstd::utf8::{decode_utf8, encode_utf8, is_ascii_chars_encode_utf8, valid_utf8};

use crate::backend::{CommandEvent, CommandEventView};
use crate::json::{json_string, json_string_of};
use crate::session_store::{signed_decimal, signed_decimal_text};
use crate::text::{append_bytes, cat5};

verus! {

// Checksums.

/// One bit of a checksum.
pub open spec fn crc_bit(crc: u32) -> u32 {
    if crc & 1 == 1 {
        (crc >> 1) ^ 0xedb8_8320
    } else {
        crc >> 1
    }
}

/// Several bits of a checksum.
pub open spec fn crc_bits(crc: u32, count: nat) -> u32
    decreases count,
{
    if count == 0 {
        crc
    } else {
        crc_bit(crc_bits(crc, (count - 1) as nat))
    }
}

/// The running checksum of some bytes.
pub open spec fn crc_run(bytes: Seq<u8>) -> u32
    decreases bytes.len(),
{
    if bytes.len() == 0 {
        0xffff_ffff
    } else {
        crc_bits(crc_run(bytes.drop_last()) ^ (bytes.last() as u32), 8)
    }
}

/// The CRC-32 checksum of some bytes.
pub open spec fn checksum_of(bytes: Seq<u8>) -> u32 {
    crc_run(bytes) ^ 0xffff_ffff
}

pub fn checksum(bytes: &Vec<u8>) -> (r: u32)
    ensures
        r == checksum_of(bytes@),
{
    let mut crc: u32 = 0xffff_ffff;
    for i in 0..bytes.len()
        invariant
            crc == crc_run(bytes@.take(i as int)),
    {
        proof {
            assert(bytes@.take(i as int + 1).drop_last() =~= bytes@.take(i as int));
            assert(bytes@.take(i as int + 1).last() == bytes@[i as int]);
        }
        let start: u32 = crc ^ (bytes[i] as u32);
        crc = start;
        for bit in 0..8u8
            invariant
                crc == crc_bits(start, bit as nat),
        {
            crc = if crc & 1 == 1 {
                (crc >> 1) ^ 0xedb8_8320
            } else {
                crc >> 1
            };
        }
    }
    proof {
        assert(bytes@.take(bytes@.len() as int) =~= bytes@);
    }
    crc ^ 0xffff_ffff
}

// Frames.

/// A number in four bytes.
pub open spec fn four_bytes(n: u32) -> Seq<u8> {
    seq![
        (n / 0x100_0000) as u8,
        (n / 0x1_0000 % 0x100) as u8,
        (n / 0x100 % 0x100) as u8,
        (n % 0x100) as u8,
    ]
}

fn push_number(out: &mut Vec<u8>, n: u32)
    ensures
        final(out)@ == old(out)@ + four_bytes(n),
{
    let ghost before = out@;
    out.push((n / 0x100_0000) as u8);
    out.push((n / 0x1_0000 % 0x100) as u8);
    out.push((n / 0x100 % 0x100) as u8);
    out.push((n % 0x100) as u8);
    proof {
        assert(out@ =~= before + four_bytes(n));
    }
}

/// A header: the length of its name, the name, the mark of a text, the length of its value in two
/// bytes, and the value.
pub open spec fn event_header(name: Seq<char>, value: Seq<char>) -> Seq<u8> {
    let name = encode_utf8(name);
    let value = encode_utf8(value);
    seq![name.len() as u8] + name + seq![7u8, (value.len() / 0x100) as u8, (value.len()
        % 0x100) as u8] + value
}

fn push_header(out: &mut Vec<u8>, name: &str, value: &str)
    requires
        encode_utf8(name@).len() < 0x100,
        encode_utf8(value@).len() < 0x1_0000,
    ensures
        final(out)@ == old(out)@ + event_header(name@, value@),
{
    let ghost before = out@;
    let name_bytes = name.as_bytes();
    let value_bytes = value.as_bytes();
    let size = value_bytes.len();
    out.push(name_bytes.len() as u8);
    append_bytes(out, name_bytes);
    out.push(7);
    out.push((size / 0x100) as u8);
    out.push((size % 0x100) as u8);
    append_bytes(out, value_bytes);
    proof {
        assert(out@ =~= before + event_header(name@, value@));
    }
}

/// What a frame is.
#[derive(Clone, Copy, Debug, PartialEq, Eq, Structural)]
pub enum FrameKind {
    /// A piece of the answer.
    Chunk,
    /// The end of an answer that failed.
    Failure,
}

pub open spec fn frame_headers(kind: FrameKind) -> Seq<u8> {
    match kind {
        FrameKind::Chunk => event_header(":message-type"@, "event"@) + event_header(
            ":event-type"@,
            "chunk"@,
        ) + event_header(":content-type"@, "application/json"@),
        FrameKind::Failure => event_header(":message-type"@, "exception"@) + event_header(
            ":exception-type"@,
            "runtimeClientError"@,
        ) + event_header(":content-type"@, "application/json"@),
    }
}

fn write_headers(kind: FrameKind) -> (r: Vec<u8>)
    ensures
        r@ == frame_headers(kind),
        r@.len() < 0x100,
{
    proof {
        reveal_strlit(":message-type");
        reveal_strlit(":event-type");
        reveal_strlit(":exception-type");
        reveal_strlit(":content-type");
        reveal_strlit("event");
        reveal_strlit("chunk");
        reveal_strlit("exception");
        reveal_strlit("runtimeClientError");
        reveal_strlit("application/json");
        is_ascii_chars_encode_utf8(":message-type"@);
        is_ascii_chars_encode_utf8(":event-type"@);
        is_ascii_chars_encode_utf8(":exception-type"@);
        is_ascii_chars_encode_utf8(":content-type"@);
        is_ascii_chars_encode_utf8("event"@);
        is_ascii_chars_encode_utf8("chunk"@);
        is_ascii_chars_encode_utf8("exception"@);
        is_ascii_chars_encode_utf8("runtimeClientError"@);
        is_ascii_chars_encode_utf8("application/json"@);
    }
    let mut out: Vec<u8> = Vec::new();
    match kind {
        FrameKind::Chunk => {
            push_header(&mut out, ":message-type", "event");
            push_header(&mut out, ":event-type", "chunk");
        },
        FrameKind::Failure => {
            push_header(&mut out, ":message-type", "exception");
            push_header(&mut out, ":exception-type", "runtimeClientError");
        },
    }
    push_header(&mut out, ":content-type", "application/json");
    proof {
        assert(out@ =~= frame_headers(kind));
    }
    out
}

/// The bytes around the headers and the payload of a frame: three numbers before them and one
/// behind.
pub const FRAME_OVERHEAD: usize = 16;

/// How long a frame is.
pub open spec fn frame_size(kind: FrameKind, payload: Seq<u8>) -> nat {
    frame_headers(kind).len() + payload.len() + FRAME_OVERHEAD as nat
}

/// The bytes of a frame before its headers.
pub open spec fn frame_prelude(size: u32, headers: u32) -> Seq<u8> {
    let lengths = four_bytes(size) + four_bytes(headers);
    lengths + four_bytes(checksum_of(lengths))
}

/// A frame, where its length fits its number.
pub open spec fn frame_of(kind: FrameKind, payload: Seq<u8>) -> Option<Seq<u8>> {
    let size = frame_size(kind, payload);
    if size > u32::MAX {
        None
    } else {
        let headers = frame_headers(kind);
        let body = frame_prelude(size as u32, headers.len() as u32) + headers + payload;
        Some(body + four_bytes(checksum_of(body)))
    }
}

/// The views of optional bytes.
pub open spec fn opt_bytes(value: Option<Vec<u8>>) -> Option<Seq<u8>> {
    match value {
        Some(bytes) => Some(bytes@),
        None => None,
    }
}

pub fn frame(kind: FrameKind, payload: &[u8]) -> (r: Option<Vec<u8>>)
    ensures
        opt_bytes(r) == frame_of(kind, payload@),
{
    let headers = write_headers(kind);
    let around: usize = headers.len() + FRAME_OVERHEAD;
    if payload.len() > u32::MAX as usize - around {
        return None;
    }
    let size: u32 = (payload.len() + around) as u32;
    let mut out: Vec<u8> = Vec::new();
    push_number(&mut out, size);
    push_number(&mut out, headers.len() as u32);
    proof {
        assert(out@ =~= four_bytes(size) + four_bytes(headers@.len() as u32));
    }
    let prelude_sum = checksum(&out);
    push_number(&mut out, prelude_sum);
    append_bytes(&mut out, headers.as_slice());
    append_bytes(&mut out, payload);
    let sum = checksum(&out);
    push_number(&mut out, sum);
    Some(out)
}

// Events.

/// Bytes as text, with a mark in place of what is no text.
pub uninterp spec fn lossy_text_of(bytes: Seq<u8>) -> Seq<char>;

/// `String::from_utf8_lossy`: bytes that are UTF-8 give their text.
#[verifier::external_body]
pub(crate) fn lossy_text(bytes: &[u8]) -> (r: String)
    ensures
        r@ == lossy_text_of(bytes@),
        valid_utf8(bytes@) ==> r@ == decode_utf8(bytes@),
{
    String::from_utf8_lossy(bytes).into_owned()
}

/// What the stream says at its start.
pub open spec fn start_payload() -> Seq<char> {
    "{\"contentStart\":{}}"@
}

pub open spec fn delta_payload(stream: Seq<char>, text: Seq<char>) -> Seq<char> {
    "{\"contentDelta\":{\""@ + stream + "\":"@ + json_string_of(text) + "}}"@
}

pub open spec fn stop_payload(exit_code: int, status: Seq<char>) -> Seq<char> {
    "{\"contentStop\":{\"exitCode\":"@ + signed_decimal(exit_code) + ",\"status\":\""@ + status
        + "\"}}"@
}

/// What the stream says of a failure. It names no details of the container.
pub open spec fn failure_payload() -> Seq<char> {
    "{\"message\":\"runtime command execution failed\"}"@
}

/// The frame of an event, with the text of its output.
pub open spec fn event_payload(
    event: Result<CommandEventView, Seq<char>>,
    text: spec_fn(Seq<u8>) -> Seq<char>,
) -> (FrameKind, Seq<char>) {
    match event {
        Ok(CommandEventView::Stdout(bytes)) => (
            FrameKind::Chunk,
            delta_payload("stdout"@, text(bytes)),
        ),
        Ok(CommandEventView::Stderr(bytes)) => (
            FrameKind::Chunk,
            delta_payload("stderr"@, text(bytes)),
        ),
        Ok(CommandEventView::Exited(code)) => (
            FrameKind::Chunk,
            stop_payload(code as int, "COMPLETED"@),
        ),
        Ok(CommandEventView::TimedOut) => (FrameKind::Chunk, stop_payload(-1, "TIMED_OUT"@)),
        Ok(CommandEventView::Cancelled) | Err(_) => (FrameKind::Failure, failure_payload()),
    }
}

/// The payload that carries a piece of output.
pub fn output_payload(stream: &str, text: &str) -> (r: String)
    ensures
        r@ == delta_payload(stream@, text@),
{
    cat5("{\"contentDelta\":{\"", stream, "\":", json_string(text).as_str(), "}}")
}

/// The payload at the end of a command.
pub fn exit_payload(exit_code: i64, status: &str) -> (r: String)
    ensures
        r@ == stop_payload(exit_code as int, status@),
{
    cat5(
        "{\"contentStop\":{\"exitCode\":",
        signed_decimal_text(exit_code).as_str(),
        ",\"status\":\"",
        status,
        "\"}}",
    )
}

/// The first frame of every answer.
pub fn start_frame() -> (r: Option<Vec<u8>>)
    ensures
        opt_bytes(r) == frame_of(FrameKind::Chunk, encode_utf8(start_payload())),
{
    frame(FrameKind::Chunk, "{\"contentStart\":{}}".as_bytes())
}

/// The frame of an event.
pub fn event_frame(event: &Result<CommandEvent, String>) -> (r: Option<Vec<u8>>)
    ensures
        ({
            let viewed: Result<CommandEventView, Seq<char>> = match *event {
                Ok(event) => Ok(event@),
                Err(message) => Err(message@),
            };
            let expected = event_payload(viewed, |bytes: Seq<u8>| lossy_text_of(bytes));
            opt_bytes(r) == frame_of(expected.0, encode_utf8(expected.1))
        }),
{
    let payload = match event {
        Ok(CommandEvent::Stdout(bytes)) => output_payload(
            "stdout",
            lossy_text(bytes.as_slice()).as_str(),
        ),
        Ok(CommandEvent::Stderr(bytes)) => output_payload(
            "stderr",
            lossy_text(bytes.as_slice()).as_str(),
        ),
        Ok(CommandEvent::Exited(code)) => exit_payload(*code, "COMPLETED"),
        Ok(CommandEvent::TimedOut) => exit_payload(-1, "TIMED_OUT"),
        Ok(CommandEvent::Cancelled) | Err(_) => {
            return frame(
                FrameKind::Failure,
                "{\"message\":\"runtime command execution failed\"}".as_bytes(),
            );
        },
    };
    frame(FrameKind::Chunk, payload.as_str().as_bytes())
}

// What holds of every frame.

/// A frame starts with its own length, so that a reader of the stream finds the next one.
pub proof fn law_frames_start_with_their_length(kind: FrameKind, payload: Seq<u8>)
    requires
        frame_of(kind, payload) is Some,
    ensures
        ({
            let whole = frame_of(kind, payload)->Some_0;
            whole.len() <= u32::MAX && whole.take(4) == four_bytes(whole.len() as u32)
        }),
{
    let size = frame_size(kind, payload) as u32;
    let headers = frame_headers(kind);
    let whole = frame_of(kind, payload)->Some_0;
    assert(whole.len() == size);
    assert(whole.take(4) =~= four_bytes(size));
}

/// The four bytes of a number give it back.
pub proof fn law_four_bytes_hold_a_number(n: u32)
    ensures
        ({
            let bytes = four_bytes(n);
            n == bytes[0] as u32 * 0x100_0000 + bytes[1] as u32 * 0x1_0000 + bytes[2] as u32 * 0x100
                + bytes[3] as u32
        }),
{
}

/// However a command failed, the stream says the same of it.
pub proof fn law_failures_hold_no_details(
    first: Seq<char>,
    second: Seq<char>,
    text: spec_fn(Seq<u8>) -> Seq<char>,
)
    ensures
        event_payload(Err(first), text) == event_payload(Err(second), text),
        event_payload(Err(first), text).1 == failure_payload(),
{
}

} // verus!
