//! What the decoder needs from `bytes::BytesMut`, the read buffer that the
//! transport fills. These contracts are taken on trust from the `bytes`
//! crate; nothing here is proved.
use bytes::{Buf, BytesMut};
use vstd::prelude::*;

verus! {

/// `bytes::BytesMut`, known only by the bytes it holds.
#[verifier::external_type_specification]
#[verifier::external_body]
pub struct ExBytesMut(BytesMut);

/// The bytes that a `BytesMut` holds, first to last.
pub uninterp spec fn buf_bytes(buf: BytesMut) -> Seq<u8>;

/// `BytesMut::as_ref`: the buffer's bytes as a slice, all of them and in
/// order.
#[verifier::external_body]
pub(crate) fn buf_as_slice(buf: &BytesMut) -> (bytes: &[u8])
    ensures
        bytes@ == buf_bytes(*buf),
{
    buf.as_ref()
}

/// `Buf::advance` on a `BytesMut`: drops the first `count` bytes and keeps
/// the rest as they were. It panics when `count` is more than the buffer
/// holds, so that is not allowed here.
#[verifier::external_body]
pub(crate) fn buf_advance(buf: &mut BytesMut, count: usize)
    requires
        count <= buf_bytes(*old(buf)).len(),
    ensures
        buf_bytes(*final(buf)) == buf_bytes(*old(buf)).skip(count as int),
{
    buf.advance(count)
}

} // verus!
