//! The streaming adapter between a live byte buffer and the frame scanner.
use crate::error::Error;
use crate::frame::{lemma_complete_prefix, model_at, scan, Frame, FrameError, ProtocolDataUnit, Scan};
use bytes::BytesMut;
use vstd::prelude::*;

verus! {

#[verifier::external_type_specification]
#[verifier::external_body]
pub struct ExBytesMut(BytesMut);

/// The bytes that a buffer holds.
pub uninterp spec fn buffered(b: BytesMut) -> Seq<u8>;

/// Relies on `BytesMut`'s `Deref` to `[u8]`: the slice is the buffered bytes.
#[verifier::external_body]
fn as_bytes(b: &BytesMut) -> (r: &[u8])
    ensures
        r@ == buffered(*b),
{
    &b[..]
}

/// Relies on `Buf::advance` for `BytesMut`: it drops the first `n` bytes and
/// panics when fewer are held.
#[verifier::external_body]
fn advance(b: &mut BytesMut, n: usize)
    requires
        n <= buffered(*old(b)).len(),
    ensures
        buffered(*final(b)) == buffered(*old(b)).subrange(n as int, buffered(*old(b)).len() as int),
{
    bytes::Buf::advance(b, n)
}

/// Relies on `BufMut::put` for `BytesMut` with a byte slice: it appends the
/// slice, and panics when the new length would overflow the capacity limit.
#[verifier::external_body]
fn put(b: &mut BytesMut, s: &[u8])
    requires
        buffered(*old(b)).len() + s@.len() <= isize::MAX,
    ensures
        buffered(*final(b)) == buffered(*old(b)) + s@,
{
    bytes::BufMut::put(b, s)
}

/// One decode step from buffer contents `before` to `after` with result `r`:
/// a whole frame at the head is read and consumed, exactly; too few bytes
/// give no item and keep the buffer; a wrong marker is an error and keeps it.
pub open spec fn decode_step(
    before: Seq<u8>,
    after: Seq<u8>,
    r: Result<Option<ProtocolDataUnit>, Error>,
) -> bool {
    match scan(before) {
        Scan::Complete(n) => {
            &&& r matches Ok(Some(p)) && p@ == model_at(before)
            &&& after == before.subrange(n as int, before.len() as int)
        },
        Scan::Incomplete => r matches Ok(None) && after == before,
        Scan::Desync(x) => r matches Err(e) && e == Error::Protocol(x) && after == before,
    }
}

/// Takes the next frame off the head of `src`, if a whole one is there.
pub fn decode_buffered(src: &mut BytesMut) -> (r: Result<Option<ProtocolDataUnit>, Error>)
    ensures
        decode_step(buffered(*old(src)), buffered(*final(src)), r),
{
    let buf = as_bytes(src);
    match Frame::check(buf) {
        Ok(len) => {
            proof {
                lemma_complete_prefix(buf@);
            }
            match Frame::parse(buf) {
                Ok(frame) => {
                    advance(src, len);
                    Ok(Some(frame))
                },
                Err(e) => Err(Error::from(e)),
            }
        },
        Err(FrameError::Incomplete) => Ok(None),
        Err(e) => Err(Error::from(e)),
    }
}

/// One encode step from buffer contents `before` with unit bytes `item` to
/// `after`: the bytes are appended verbatim, unless the buffer could not
/// grow that far, which is an error that leaves it as it was.
pub open spec fn encode_step(
    before: Seq<u8>,
    item: Seq<u8>,
    after: Seq<u8>,
    r: Result<(), Error>,
) -> bool {
    if before.len() + item.len() <= isize::MAX {
        r is Ok && after == before + item
    } else {
        r matches Err(e) && e == Error::Capacity && after == before
    }
}

/// Appends an already framed unit to `dst`, as it stands.
pub fn encode_buffered(item: &[u8], dst: &mut BytesMut) -> (r: Result<(), Error>)
    ensures
        encode_step(buffered(*old(dst)), item@, buffered(*final(dst)), r),
{
    let limit: usize = isize::MAX as usize;
    let held = as_bytes(dst).len();
    if item.len() > limit || held > limit - item.len() {
        return Err(Error::Capacity);
    }
    put(dst, item);
    Ok(())
}

/// The codec for frames on a serial line.
pub struct RS485Codec;

impl RS485Codec {
    /// Takes the next frame off the head of `src`, if a whole one is there.
    pub fn decode(&mut self, src: &mut BytesMut) -> (r: Result<Option<ProtocolDataUnit>, Error>)
        ensures
            decode_step(buffered(*old(src)), buffered(*final(src)), r),
    {
        decode_buffered(src)
    }

    /// Appends an already framed unit to `dst`, as it stands.
    pub fn encode(&mut self, item: &[u8], dst: &mut BytesMut) -> (r: Result<(), Error>)
        ensures
            encode_step(buffered(*old(dst)), item@, buffered(*final(dst)), r),
    {
        encode_buffered(item, dst)
    }
}

/// The codec for frames on a TCP stream.
pub struct TcpCodec;

impl TcpCodec {
    /// Takes the next frame off the head of `src`, if a whole one is there.
    pub fn decode(&mut self, src: &mut BytesMut) -> (r: Result<Option<ProtocolDataUnit>, Error>)
        ensures
            decode_step(buffered(*old(src)), buffered(*final(src)), r),
    {
        decode_buffered(src)
    }

    /// Appends an already framed unit to `dst`, as it stands.
    pub fn encode(&mut self, item: &[u8], dst: &mut BytesMut) -> (r: Result<(), Error>)
        ensures
            encode_step(buffered(*old(dst)), item@, buffered(*final(dst)), r),
    {
        encode_buffered(item, dst)
    }
}

} // verus!
