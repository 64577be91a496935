//! The byte buffer that the codec reads from and writes to.
//!
//! The buffer is `BytesMut`, the growable buffer that the framed transports
//! pass to a codec. Nothing in this module is proved: each item states what one
//! operation of `BytesMut` does, and the codec is proved against these
//! statements. A buffer never asks the allocator for more than `isize::MAX`
//! bytes here; that the allocator then has the memory is taken for granted, as
//! it is for `Vec`.

use tokio_util::bytes::{Buf, BytesMut};
use vstd::prelude::*;

verus! {

/// `BytesMut` of the `bytes` crate, under the path by which `tokio-util` hands
/// it on. Its inside is hidden: all that is said of a buffer is said through
/// [`buffered`].
#[verifier::external_type_specification]
#[verifier::external_body]
pub struct ExBytesMut(BytesMut);

/// The bytes that a buffer holds, in the order in which they will be read.
pub uninterp spec fn buffered(buf: BytesMut) -> Seq<u8>;

/// `BytesMut::len`: the number of bytes held.
#[verifier::external_body]
pub(crate) fn buf_len(buf: &BytesMut) -> (len: usize)
    ensures
        len == buffered(*buf).len(),
{
    buf.len()
}

/// `Deref::deref` of `BytesMut`: the bytes held, as a slice.
#[verifier::external_body]
pub(crate) fn buf_bytes(buf: &BytesMut) -> (bytes: &[u8])
    ensures
        bytes@ == buffered(*buf),
{
    buf
}

/// `BytesMut::reserve`: makes room for `additional` more bytes and leaves the
/// bytes held as they are. It panics when the new capacity overflows, which the
/// bound on the new length keeps from happening.
#[verifier::external_body]
pub(crate) fn buf_reserve(buf: &mut BytesMut, additional: usize)
    requires
        buffered(*old(buf)).len() + additional <= isize::MAX,
    ensures
        buffered(*final(buf)) == buffered(*old(buf)),
{
    buf.reserve(additional)
}

/// `Buf::advance` of `BytesMut`: drops the first `cnt` bytes. It panics when
/// fewer than `cnt` bytes are held.
#[verifier::external_body]
pub(crate) fn buf_advance(buf: &mut BytesMut, cnt: usize)
    requires
        cnt <= buffered(*old(buf)).len(),
    ensures
        buffered(*final(buf)) == buffered(*old(buf)).skip(cnt as int),
{
    buf.advance(cnt)
}

/// `BytesMut::extend_from_slice`: appends `extend` after the bytes held. It
/// reserves the room first, and so panics as `reserve` does.
#[verifier::external_body]
pub(crate) fn buf_extend(buf: &mut BytesMut, extend: &[u8])
    requires
        buffered(*old(buf)).len() + extend@.len() <= isize::MAX,
    ensures
        buffered(*final(buf)) == buffered(*old(buf)) + extend@,
{
    buf.extend_from_slice(extend)
}

} // verus!
