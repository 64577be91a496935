//! What holds of a whole stream of frames.
//!
//! The decoder is called again and again on a buffer that the transport fills
//! in pieces of any size. This module states, over byte sequences, what comes
//! out of such a stream, and proves that the pieces do not matter, that what
//! the encoder wrote the decoder reads back, and that an oversized or partial
//! frame leaves the buffer alone. The payload format is a parameter: `parse`
//! says what a payload parses to, `serialize` what a packet is written as.

use vstd::prelude::*;

use crate::codec::{
    spec_decode, spec_decode_ensures, spec_encode, spec_encode_ensures, spec_frame,
    spec_frame_step, spec_payload, spec_prefix, spec_prefix_value, CodecError, FrameStep,
    MAX_FRAME_SIZE, PREFIX_SIZE,
};
use crate::models::Packet;

verus! {

/// One call of the decoder on `buf`, with payloads parsed by `parse`.
pub open spec fn spec_decode_with(parse: spec_fn(Seq<u8>) -> Option<Packet>, buf: Seq<u8>) -> (
    Result<Option<Packet>, CodecError>,
    Seq<u8>,
) {
    match spec_frame_step(buf) {
        FrameStep::Complete(payload) => spec_decode(buf, parse(payload)),
        _ => spec_decode(buf, None),
    }
}

/// What a reader has got out of a stream so far.
pub struct Drained {
    /// The packets decoded, in order.
    pub packets: Seq<Packet>,
    /// The error that ended decoding, if one did.
    pub error: Option<CodecError>,
    /// The bytes not decoded.
    pub rest: Seq<u8>,
}

/// Calls the decoder on `buf` until it asks for more bytes or fails.
pub open spec fn spec_drain(parse: spec_fn(Seq<u8>) -> Option<Packet>, buf: Seq<u8>) -> Drained
    decreases buf.len(),
{
    match spec_decode_with(parse, buf) {
        (Ok(Some(packet)), rest) => {
            if rest.len() < buf.len() {
                let later = spec_drain(parse, rest);
                Drained {
                    packets: seq![packet] + later.packets,
                    error: later.error,
                    rest: later.rest,
                }
            } else {
                Drained { packets: Seq::empty(), error: None, rest: buf }
            }
        },
        (Ok(None), _) => Drained { packets: Seq::empty(), error: None, rest: buf },
        (Err(error), _) => Drained { packets: Seq::empty(), error: Some(error), rest: buf },
    }
}

/// Appends `chunk` to what is buffered and drains again. After an error
/// nothing is decoded any more: the bytes only pile up.
pub open spec fn spec_feed(
    parse: spec_fn(Seq<u8>) -> Option<Packet>,
    state: Drained,
    chunk: Seq<u8>,
) -> Drained {
    if state.error is Some {
        Drained { packets: state.packets, error: state.error, rest: state.rest + chunk }
    } else {
        let more = spec_drain(parse, state.rest + chunk);
        Drained { packets: state.packets + more.packets, error: more.error, rest: more.rest }
    }
}

/// Feeds the chunks one after the other to a reader that starts empty.
pub open spec fn spec_feed_all(
    parse: spec_fn(Seq<u8>) -> Option<Packet>,
    chunks: Seq<Seq<u8>>,
) -> Drained
    decreases chunks.len(),
{
    if chunks.len() == 0 {
        Drained { packets: Seq::empty(), error: None, rest: Seq::empty() }
    } else {
        spec_feed(parse, spec_feed_all(parse, chunks.drop_last()), chunks.last())
    }
}

/// The chunks laid end to end.
pub open spec fn spec_concat(chunks: Seq<Seq<u8>>) -> Seq<u8>
    decreases chunks.len(),
{
    if chunks.len() == 0 {
        Seq::empty()
    } else {
        spec_concat(chunks.drop_last()) + chunks.last()
    }
}

/// The frames of `packets` laid end to end, as the encoder writes them.
pub open spec fn spec_encode_all(
    serialize: spec_fn(Packet) -> Option<Seq<u8>>,
    packets: Seq<Packet>,
) -> Seq<u8>
    decreases packets.len(),
{
    if packets.len() == 0 {
        Seq::empty()
    } else {
        spec_encode(Seq::empty(), serialize(packets.first())).1 + spec_encode_all(
            serialize,
            packets.drop_first(),
        )
    }
}

/// Whether every one of `packets` serialises to a payload within the limit
/// that parses back to the packet.
pub open spec fn spec_faithful(
    serialize: spec_fn(Packet) -> Option<Seq<u8>>,
    parse: spec_fn(Seq<u8>) -> Option<Packet>,
    packets: Seq<Packet>,
) -> bool {
    forall|i: int|
        0 <= i < packets.len() ==> match #[trigger] serialize(packets[i]) {
            Some(payload) => payload.len() <= MAX_FRAME_SIZE && parse(payload) == Some(packets[i]),
            None => false,
        }
}

/// Whether the function `parse` returns, on every payload, what `model` says.
pub open spec fn spec_parse_follows<F: Fn(&[u8]) -> Option<Packet>>(
    parse: F,
    model: spec_fn(Seq<u8>) -> Option<Packet>,
) -> bool {
    forall|bytes: &[u8], parsed: Option<Packet>| #[trigger]
        parse.ensures((bytes,), parsed) ==> parsed == model(bytes@)
}

/// Whether the function `serialize` returns, on every packet, what `model`
/// says.
pub open spec fn spec_serialize_follows<F: Fn(&Packet) -> Option<Vec<u8>>>(
    serialize: F,
    model: spec_fn(Packet) -> Option<Seq<u8>>,
) -> bool {
    forall|item: &Packet, bytes: Option<Vec<u8>>| #[trigger]
        serialize.ensures((item,), bytes) ==> spec_payload(bytes) == model(*item)
}

/// With a parser that computes `model`, a call of the decoder returns and
/// leaves behind exactly what [`spec_decode_with`] says for `model`.
pub proof fn lemma_decoder_follows_model<F: Fn(&[u8]) -> Option<Packet>>(
    parse: F,
    model: spec_fn(Seq<u8>) -> Option<Packet>,
    before: Seq<u8>,
    r: Result<Option<Packet>, CodecError>,
    after: Seq<u8>,
)
    requires
        spec_decode_ensures(parse, before, r, after),
        spec_parse_follows(parse, model),
    ensures
        (r, after) == spec_decode_with(model, before),
{
}

/// With a serialiser that computes `model`, a call of the encoder returns and
/// leaves behind exactly what [`spec_encode`] says for `model`.
pub proof fn lemma_encoder_follows_model<F: Fn(&Packet) -> Option<Vec<u8>>>(
    serialize: F,
    model: spec_fn(Packet) -> Option<Seq<u8>>,
    item: Packet,
    before: Seq<u8>,
    r: Result<(), CodecError>,
    after: Seq<u8>,
)
    requires
        spec_encode_ensures(serialize, item, before, r, after),
        spec_serialize_follows(serialize, model),
    ensures
        (r, after) == spec_encode(before, model(item)),
{
}

/// A length prefix is four bytes that spell the length they were made from.
pub proof fn lemma_prefix_round_trip(length: nat)
    requires
        length <= u32::MAX,
    ensures
        spec_prefix(length).len() == PREFIX_SIZE,
        spec_prefix_value(spec_prefix(length)) == length,
{
}

/// A frame is its prefix and its payload, and the decoder finds exactly that
/// payload at the front of it, whatever follows.
pub proof fn lemma_frame_is_found(payload: Seq<u8>, tail: Seq<u8>)
    requires
        payload.len() <= MAX_FRAME_SIZE,
    ensures
        spec_frame(payload).len() == PREFIX_SIZE + payload.len(),
        spec_frame_step(spec_frame(payload) + tail) == FrameStep::Complete(payload),
        (spec_frame(payload) + tail).skip(PREFIX_SIZE + payload.len()) == tail,
{
    lemma_prefix_round_trip(payload.len());
    let buf = spec_frame(payload) + tail;
    assert(buf[0] == spec_prefix(payload.len())[0]);
    assert(buf[1] == spec_prefix(payload.len())[1]);
    assert(buf[2] == spec_prefix(payload.len())[2]);
    assert(buf[3] == spec_prefix(payload.len())[3]);
    assert(spec_prefix_value(buf) == payload.len());
    assert(buf.subrange(PREFIX_SIZE as int, PREFIX_SIZE + payload.len()) =~= payload);
    assert(buf.skip(PREFIX_SIZE + payload.len()) =~= tail);
}

/// Decoding what the encoder wrote gives the packet back and leaves nothing
/// behind, for every packet whose payload parses back to it.
pub proof fn lemma_round_trip(
    serialize: spec_fn(Packet) -> Option<Seq<u8>>,
    parse: spec_fn(Seq<u8>) -> Option<Packet>,
    packet: Packet,
)
    requires
        spec_faithful(serialize, parse, seq![packet]),
    ensures
        spec_encode(Seq::empty(), serialize(packet)).0 == Ok::<(), CodecError>(()),
        spec_decode_with(parse, spec_encode(Seq::empty(), serialize(packet)).1) == (
            Ok::<Option<Packet>, CodecError>(Some(packet)),
            Seq::<u8>::empty(),
        ),
{
    assert(seq![packet][0] == packet);
    let payload = serialize(packet)->Some_0;
    lemma_frame_is_found(payload, Seq::empty());
    assert(Seq::<u8>::empty() + spec_frame(payload) =~= spec_frame(payload));
    assert(spec_frame(payload) + Seq::<u8>::empty() =~= spec_frame(payload));
}

/// A length prefix above the limit is refused, the buffer keeps every byte,
/// and no byte that arrives later changes the answer.
pub proof fn lemma_oversized_frame_is_refused(buf: Seq<u8>, parsed: Option<Packet>, more: Seq<u8>)
    requires
        buf.len() >= PREFIX_SIZE,
        spec_prefix_value(buf) > MAX_FRAME_SIZE,
    ensures
        spec_decode(buf, parsed) == (
            Err::<Option<Packet>, CodecError>(
                CodecError::FrameTooLarge { length: spec_prefix_value(buf) as u32 },
            ),
            buf,
        ),
        spec_decode(buf + more, parsed) == (
            Err::<Option<Packet>, CodecError>(
                CodecError::FrameTooLarge { length: spec_prefix_value(buf) as u32 },
            ),
            buf + more,
        ),
{
    lemma_front_is_kept(buf, more);
}

/// A prefix with only part of its payload makes the decoder ask for more and
/// leaves the buffer as it is, again and again while too few bytes have come;
/// once enough have come, the frame is whole and its payload is the bytes that
/// the prefix counts.
pub proof fn lemma_partial_frame_waits(buf: Seq<u8>, parsed: Option<Packet>, more: Seq<u8>)
    requires
        buf.len() >= PREFIX_SIZE,
        spec_prefix_value(buf) <= MAX_FRAME_SIZE,
        buf.len() < PREFIX_SIZE + spec_prefix_value(buf),
    ensures
        spec_decode(buf, parsed) == (Ok::<Option<Packet>, CodecError>(None), buf),
        (buf + more).len() < PREFIX_SIZE + spec_prefix_value(buf) ==> spec_decode(
            buf + more,
            parsed,
        ) == (Ok::<Option<Packet>, CodecError>(None), buf + more),
        (buf + more).len() >= PREFIX_SIZE + spec_prefix_value(buf) ==> spec_frame_step(buf + more)
            == FrameStep::Complete(
            (buf + more).subrange(PREFIX_SIZE as int, PREFIX_SIZE + spec_prefix_value(buf)),
        ),
{
    lemma_front_is_kept(buf, more);
}

/// Bytes that arrive later change neither the prefix nor a frame that was
/// already whole.
pub proof fn lemma_front_is_kept(buf: Seq<u8>, more: Seq<u8>)
    requires
        buf.len() >= PREFIX_SIZE,
    ensures
        spec_prefix_value(buf + more) == spec_prefix_value(buf),
        spec_frame_step(buf) is TooLarge ==> spec_frame_step(buf + more) == spec_frame_step(buf),
        spec_frame_step(buf) is Complete ==> spec_frame_step(buf + more) == spec_frame_step(buf),
        spec_frame_step(buf) is Complete ==> (buf + more).skip(
            PREFIX_SIZE + spec_prefix_value(buf),
        ) == buf.skip(PREFIX_SIZE + spec_prefix_value(buf)) + more,
{
    let all = buf + more;
    assert(all[0] == buf[0]);
    assert(all[1] == buf[1]);
    assert(all[2] == buf[2]);
    assert(all[3] == buf[3]);
    if spec_frame_step(buf) is Complete {
        let end = PREFIX_SIZE + spec_prefix_value(buf);
        assert(all.subrange(PREFIX_SIZE as int, end as int) =~= buf.subrange(
            PREFIX_SIZE as int,
            end as int,
        ));
        assert(all.skip(end as int) =~= buf.skip(end as int) + more);
    }
}

/// Draining a buffer to which more bytes were appended is draining the buffer
/// and then feeding the rest.
pub proof fn lemma_drain_resumes(
    parse: spec_fn(Seq<u8>) -> Option<Packet>,
    buf: Seq<u8>,
    more: Seq<u8>,
)
    ensures
        spec_drain(parse, buf + more) == spec_feed(parse, spec_drain(parse, buf), more),
    decreases buf.len(),
{
    let drained = spec_drain(parse, buf);
    let resumed = spec_feed(parse, drained, more);
    let whole = spec_drain(parse, buf + more);
    match spec_frame_step(buf) {
        FrameStep::NeedMore => {
            assert(resumed.packets =~= whole.packets);
        },
        FrameStep::TooLarge(length) => {
            lemma_front_is_kept(buf, more);
        },
        FrameStep::Complete(payload) => {
            lemma_front_is_kept(buf, more);
            match parse(payload) {
                None => {},
                Some(packet) => {
                    let end = PREFIX_SIZE + payload.len();
                    let rest = buf.skip(end as int);
                    lemma_drain_resumes(parse, rest, more);
                    let later = spec_drain(parse, rest);
                    assert((buf + more).skip(end as int) == rest + more);
                    if later.error is Some {
                        assert(whole.packets =~= resumed.packets);
                    } else {
                        let tail = spec_drain(parse, later.rest + more);
                        assert(seq![packet] + (later.packets + tail.packets) =~= (seq![packet]
                            + later.packets) + tail.packets);
                    }
                },
            }
        },
    }
}

/// However a stream of bytes is cut into chunks, feeding the chunks one by one
/// gives the packets, the error and the undecoded rest that decoding the whole
/// stream in one piece gives.
pub proof fn lemma_chunks_do_not_matter(
    parse: spec_fn(Seq<u8>) -> Option<Packet>,
    chunks: Seq<Seq<u8>>,
)
    ensures
        spec_feed_all(parse, chunks) == spec_drain(parse, spec_concat(chunks)),
    decreases chunks.len(),
{
    if chunks.len() > 0 {
        lemma_chunks_do_not_matter(parse, chunks.drop_last());
        lemma_drain_resumes(parse, spec_concat(chunks.drop_last()), chunks.last());
    }
}

/// A stream of encoded packets decodes to those packets, in order, with no
/// error and nothing left over.
pub proof fn lemma_stream_round_trip(
    serialize: spec_fn(Packet) -> Option<Seq<u8>>,
    parse: spec_fn(Seq<u8>) -> Option<Packet>,
    packets: Seq<Packet>,
)
    requires
        spec_faithful(serialize, parse, packets),
    ensures
        spec_drain(parse, spec_encode_all(serialize, packets)) == (Drained {
            packets,
            error: None,
            rest: Seq::empty(),
        }),
    decreases packets.len(),
{
    if packets.len() > 0 {
        let first = packets.first();
        let others = packets.drop_first();
        assert(packets[0] == first);
        assert forall|i: int| 0 <= i < others.len() implies match #[trigger] serialize(others[i]) {
            Some(payload) => payload.len() <= MAX_FRAME_SIZE && parse(payload) == Some(others[i]),
            None => false,
        } by {
            assert(others[i] == packets[i + 1]);
        }
        lemma_stream_round_trip(serialize, parse, others);
        let payload = serialize(first)->Some_0;
        let tail = spec_encode_all(serialize, others);
        lemma_frame_is_found(payload, tail);
        assert(Seq::<u8>::empty() + spec_frame(payload) =~= spec_frame(payload));
        let whole = spec_encode_all(serialize, packets);
        assert(whole == spec_frame(payload) + tail);
        assert(spec_decode_with(parse, whole) == (
            Ok::<Option<Packet>, CodecError>(Some(first)),
            tail,
        ));
        assert(seq![first] + others =~= packets);
    } else {
        assert(packets =~= Seq::empty());
    }
}

} // verus!
