//! The framing of packets on the wire.
//!
//! A frame is a length prefix of four bytes, little-endian, and then that many
//! bytes of payload; the payload is one serialised packet. A declared length
//! above [`MAX_FRAME_SIZE`] is a protocol violation. How a packet becomes a
//! payload is not this module's business: the encoder and the decoder are
//! handed the function that serialises or parses, and the contracts say what
//! they do with whatever that function returns.

use vstd::prelude::*;
use vstd::slice::slice_subrange;

use tokio_util::bytes::BytesMut;

use crate::buffer::{buf_advance, buf_bytes, buf_extend, buf_len, buf_reserve, buffered};
use crate::models::Packet;

verus! {

/// The largest payload that a frame may carry: 8 MiB.
pub const MAX_FRAME_SIZE: usize = 8 * 1024 * 1024;

/// The length of the length prefix.
pub const PREFIX_SIZE: usize = 4;

/// Why a frame was not decoded or a packet not encoded. Each of these ends the
/// connection.
#[derive(Clone, Copy, Debug, PartialEq, Eq, Structural)]
pub enum CodecError {
    /// The length prefix declares more than [`MAX_FRAME_SIZE`] bytes.
    FrameTooLarge { length: u32 },
    /// The payload of a whole frame is not a packet.
    MalformedPayload,
    /// The packet could not be serialised into a frame.
    EncodeError,
}

/// The number that four bytes spell, least significant byte first.
pub open spec fn spec_prefix_value(bytes: Seq<u8>) -> nat
    recommends
        bytes.len() >= 4,
{
    (bytes[0] + bytes[1] * 0x100 + bytes[2] * 0x1_0000 + bytes[3] * 0x100_0000) as nat
}

/// The four bytes that spell `length`, least significant byte first.
pub open spec fn spec_prefix(length: nat) -> Seq<u8>
    recommends
        length <= u32::MAX,
{
    seq![
        (length % 0x100) as u8,
        (length / 0x100 % 0x100) as u8,
        (length / 0x1_0000 % 0x100) as u8,
        (length / 0x100_0000 % 0x100) as u8,
    ]
}

/// The frame that carries `payload`.
pub open spec fn spec_frame(payload: Seq<u8>) -> Seq<u8> {
    spec_prefix(payload.len()) + payload
}

/// What stands at the front of a buffer.
pub enum FrameStep {
    /// Not yet a whole frame.
    NeedMore,
    /// A length prefix that declares more than the limit.
    TooLarge(u32),
    /// A whole frame, with this payload.
    Complete(Seq<u8>),
}

/// Looks at the front of a buffer: fewer than four bytes are not yet a prefix;
/// a prefix above the limit is a violation, whatever follows; a prefix with too
/// few bytes after it is not yet a frame; otherwise the payload is the bytes
/// that the prefix counts.
pub open spec fn spec_frame_step(buf: Seq<u8>) -> FrameStep {
    if buf.len() < PREFIX_SIZE {
        FrameStep::NeedMore
    } else if spec_prefix_value(buf) > MAX_FRAME_SIZE {
        FrameStep::TooLarge(spec_prefix_value(buf) as u32)
    } else if buf.len() < PREFIX_SIZE + spec_prefix_value(buf) {
        FrameStep::NeedMore
    } else {
        FrameStep::Complete(buf.subrange(PREFIX_SIZE as int, PREFIX_SIZE + spec_prefix_value(buf)))
    }
}

/// What one call of the decoder returns and what it leaves in the buffer, where
/// `parsed` is what the payload of the frame at the front parses to. Only a
/// whole frame with a payload that parses is taken out of the buffer.
pub open spec fn spec_decode(buf: Seq<u8>, parsed: Option<Packet>) -> (
    Result<Option<Packet>, CodecError>,
    Seq<u8>,
) {
    match spec_frame_step(buf) {
        FrameStep::NeedMore => (Ok(None), buf),
        FrameStep::TooLarge(length) => (Err(CodecError::FrameTooLarge { length }), buf),
        FrameStep::Complete(payload) => match parsed {
            Some(packet) => (Ok(Some(packet)), buf.skip(PREFIX_SIZE + payload.len())),
            None => (Err(CodecError::MalformedPayload), buf),
        },
    }
}

/// Whether a buffer that holds `held` bytes can take the frame of a payload of
/// `length` bytes: a buffer is one allocation, and no allocation is larger than
/// `isize::MAX` bytes.
pub open spec fn spec_has_room(held: nat, length: nat) -> bool {
    held + PREFIX_SIZE + length <= isize::MAX
}

/// What one call of the encoder returns and what it leaves in the buffer, where
/// `payload` is what the packet serialises to. A packet that does not
/// serialise, or whose payload is above the limit or finds no room, leaves the
/// buffer as it was.
pub open spec fn spec_encode(buf: Seq<u8>, payload: Option<Seq<u8>>) -> (
    Result<(), CodecError>,
    Seq<u8>,
) {
    match payload {
        Some(bytes) => if bytes.len() <= MAX_FRAME_SIZE && spec_has_room(buf.len(), bytes.len()) {
            (Ok(()), buf + spec_frame(bytes))
        } else {
            (Err(CodecError::EncodeError), buf)
        },
        None => (Err(CodecError::EncodeError), buf),
    }
}

/// Whether `parse`, called on `payload`, may return `parsed`.
pub open spec fn spec_parses<F: Fn(&[u8]) -> Option<Packet>>(
    parse: F,
    payload: Seq<u8>,
    parsed: Option<Packet>,
) -> bool {
    exists|bytes: &[u8]| bytes@ == payload && #[trigger] parse.ensures((bytes,), parsed)
}

/// Whether `serialize`, called on `item`, may return `payload`.
pub open spec fn spec_serializes<F: Fn(&Packet) -> Option<Vec<u8>>>(
    serialize: F,
    item: Packet,
    payload: Option<Seq<u8>>,
) -> bool {
    exists|bytes: Option<Vec<u8>>| #[trigger]
        serialize.ensures((&item,), bytes) && payload == spec_payload(bytes)
}

/// The bytes of a payload that was serialised, if it was.
pub open spec fn spec_payload(bytes: Option<Vec<u8>>) -> Option<Seq<u8>> {
    match bytes {
        Some(v) => Some(v@),
        None => None,
    }
}

/// What a call of the decoder with `parse` guarantees, from the buffer
/// `before` to the result `r` and the buffer `after`: the outcome that
/// [`spec_decode`] gives for something that `parse` may return on the payload
/// of the frame at the front.
pub open spec fn spec_decode_ensures<F: Fn(&[u8]) -> Option<Packet>>(
    parse: F,
    before: Seq<u8>,
    r: Result<Option<Packet>, CodecError>,
    after: Seq<u8>,
) -> bool {
    match spec_frame_step(before) {
        FrameStep::Complete(payload) => exists|parsed: Option<Packet>|
            spec_parses(parse, payload, parsed) && (r, after) == #[trigger] spec_decode(
                before,
                parsed,
            ),
        _ => (r, after) == spec_decode(before, None),
    }
}

/// What a call of the encoder with `serialize` guarantees, from the buffer
/// `before` to the result `r` and the buffer `after`: the outcome that
/// [`spec_encode`] gives for something that `serialize` may return on `item`.
pub open spec fn spec_encode_ensures<F: Fn(&Packet) -> Option<Vec<u8>>>(
    serialize: F,
    item: Packet,
    before: Seq<u8>,
    r: Result<(), CodecError>,
    after: Seq<u8>,
) -> bool {
    exists|payload: Option<Seq<u8>>|
        spec_serializes(serialize, item, payload) && (r, after) == #[trigger] spec_encode(
            before,
            payload,
        )
}

/// Reads the length prefix at the front of `bytes`.
fn read_prefix(bytes: &[u8]) -> (length: u32)
    requires
        bytes@.len() >= PREFIX_SIZE,
    ensures
        length == spec_prefix_value(bytes@),
{
    let b0: u32 = bytes[0] as u32;
    let b1: u32 = bytes[1] as u32;
    let b2: u32 = bytes[2] as u32;
    let b3: u32 = bytes[3] as u32;
    b0 + b1 * 0x100 + b2 * 0x1_0000 + b3 * 0x100_0000
}

/// Spells `length` as a length prefix.
fn write_prefix(length: u32) -> (prefix: Vec<u8>)
    ensures
        prefix@ == spec_prefix(length as nat),
{
    let mut prefix: Vec<u8> = Vec::new();
    prefix.push((length % 0x100) as u8);
    prefix.push((length / 0x100 % 0x100) as u8);
    prefix.push((length / 0x1_0000 % 0x100) as u8);
    prefix.push((length / 0x100_0000 % 0x100) as u8);
    assert(prefix@ =~= spec_prefix(length as nat));
    prefix
}

/// Takes frames out of a buffer, one packet at a time.
#[derive(Clone, Copy, Debug, Default)]
pub struct PacketDecoder {}

/// Puts packets into a buffer, one frame each.
#[derive(Clone, Copy, Debug, Default)]
pub struct PacketEncoder {}

impl PacketDecoder {
    /// Decodes the frame at the front of `src`, if a whole one is there.
    ///
    /// With fewer than four bytes, or a prefix and not yet all of its payload,
    /// the answer is `Ok(None)` and the buffer is untouched, so that the call
    /// can be repeated as bytes arrive. A prefix above the limit is
    /// `FrameTooLarge`, and nothing is taken. A whole frame is handed to
    /// `parse`: if it is a packet, the frame is taken out of the buffer and the
    /// packet returned; if not, the answer is `MalformedPayload` and nothing is
    /// taken.
    pub fn decode<F: Fn(&[u8]) -> Option<Packet>>(&mut self, src: &mut BytesMut, parse: F) -> (r:
        Result<Option<Packet>, CodecError>)
        requires
            forall|bytes: &[u8]|
                bytes@.len() <= MAX_FRAME_SIZE ==> #[trigger] parse.requires((bytes,)),
        ensures
            spec_decode_ensures(parse, buffered(*old(src)), r, buffered(*final(src))),
    {
        if buf_len(src) < PREFIX_SIZE {
            return Ok(None);
        }
        let length: u32 = read_prefix(buf_bytes(src));
        if length as usize > MAX_FRAME_SIZE {
            return Err(CodecError::FrameTooLarge { length });
        }
        let end: usize = PREFIX_SIZE + length as usize;
        if buf_len(src) < end {
            buf_reserve(src, end - buf_len(src));
            return Ok(None);
        }
        let parsed = parse(slice_subrange(buf_bytes(src), PREFIX_SIZE, end));
        let ghost before = buffered(*old(src));
        let ghost payload = before.subrange(PREFIX_SIZE as int, end as int);
        assert(spec_frame_step(before) == FrameStep::Complete(payload));
        assert(spec_parses(parse, payload, parsed));
        match parsed {
            Some(packet) => {
                buf_advance(src, end);
                assert((Ok::<Option<Packet>, CodecError>(Some(packet)), buffered(*src))
                    == spec_decode(before, parsed));
                Ok(Some(packet))
            },
            None => {
                assert((Err::<Option<Packet>, CodecError>(CodecError::MalformedPayload), before)
                    == spec_decode(before, parsed));
                Err(CodecError::MalformedPayload)
            },
        }
    }
}

impl PacketEncoder {
    /// Appends to `dst` the frame that carries `item`.
    ///
    /// The packet is handed to `serialize`. If that gives a payload within the
    /// limit, its length prefix and then the payload are appended. If it gives
    /// none, or one above the limit, or one for whose frame the buffer has no
    /// room, the answer is `EncodeError` and the buffer is untouched.
    pub fn encode<F: Fn(&Packet) -> Option<Vec<u8>>>(
        &mut self,
        item: Packet,
        dst: &mut BytesMut,
        serialize: F,
    ) -> (r: Result<(), CodecError>)
        requires
            serialize.requires((&item,)),
        ensures
            spec_encode_ensures(serialize, item, buffered(*old(dst)), r, buffered(*final(dst))),
    {
        let serialized = serialize(&item);
        let ghost payload: Option<Seq<u8>> = spec_payload(serialized);
        let ghost before = buffered(*old(dst));
        assert(spec_serializes(serialize, item, payload));
        match serialized {
            Some(data) => {
                if data.len() > MAX_FRAME_SIZE || buf_len(dst) > usize::MAX / 2 - PREFIX_SIZE
                    - data.len() {
                    assert((Err::<(), CodecError>(CodecError::EncodeError), before) == spec_encode(
                        before,
                        payload,
                    ));
                    return Err(CodecError::EncodeError);
                }
                buf_reserve(dst, PREFIX_SIZE + data.len());
                let prefix = write_prefix(data.len() as u32);
                buf_extend(dst, prefix.as_slice());
                buf_extend(dst, data.as_slice());
                assert(buffered(*dst) =~= before + spec_frame(data@));
                assert((Ok::<(), CodecError>(()), buffered(*dst)) == spec_encode(before, payload));
                Ok(())
            },
            None => {
                assert((Err::<(), CodecError>(CodecError::EncodeError), before) == spec_encode(
                    before,
                    payload,
                ));
                Err(CodecError::EncodeError)
            },
        }
    }
}

} // verus!
