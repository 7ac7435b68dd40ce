//! The receive buffer of the decoder: `bytes::BytesMut`, seen as the
//! sequence of bytes it holds.

use bytes::{Buf, BytesMut};
use vstd::prelude::*;

verus! {

/// `bytes::BytesMut`, a growable byte buffer that is consumed from the front.
#[verifier::external_type_specification]
#[verifier::external_body]
pub struct ExBytesMut(BytesMut);

/// The bytes a buffer holds, the next one to be read first.
pub uninterp spec fn contents(buf: BytesMut) -> Seq<u8>;

/// `BytesMut::is_empty`: whether the buffer holds no byte.
#[verifier::external_body]
pub(crate) fn is_empty(buf: &BytesMut) -> (empty: bool)
    ensures
        empty == (contents(*buf).len() == 0),
{
    buf.is_empty()
}

/// `Buf::chunk` of `BytesMut`: all the bytes the buffer holds, as one slice.
#[verifier::external_body]
pub(crate) fn chunk(buf: &BytesMut) -> (bytes: &[u8])
    ensures
        bytes@ == contents(*buf),
{
    buf.chunk()
}

/// `Buf::advance` of `BytesMut`: drops the first `cnt` bytes. The outside
/// function panics when the buffer holds fewer.
#[verifier::external_body]
pub(crate) fn advance(buf: &mut BytesMut, cnt: usize)
    requires
        cnt <= contents(*old(buf)).len(),
    ensures
        contents(*final(buf)) == contents(*old(buf)).skip(cnt as int),
{
    buf.advance(cnt)
}

/// `Buf::get_u8` of `BytesMut`: takes the first byte out of the buffer. The
/// outside function panics on an empty buffer.
#[verifier::external_body]
pub(crate) fn get_u8(buf: &mut BytesMut) -> (byte: u8)
    requires
        contents(*old(buf)).len() > 0,
    ensures
        byte == contents(*old(buf))[0],
        contents(*final(buf)) == contents(*old(buf)).skip(1),
{
    buf.get_u8()
}

} // verus!
