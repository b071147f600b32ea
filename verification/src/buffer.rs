use vstd::prelude::*;

verus! {

#[verifier::external_type_specification]
#[verifier::external_body]
pub struct ExBytesMut(bytes::BytesMut);

/// The bytes that a buffer holds, front first.
pub uninterp spec fn buffered(buf: bytes::BytesMut) -> Seq<u8>;

/// `BytesMut::new`: a buffer that holds nothing.
#[verifier::external_body]
pub(crate) fn buf_new() -> (buf: bytes::BytesMut)
    ensures
        buffered(buf) == Seq::<u8>::empty(),
{
    bytes::BytesMut::new()
}

/// `BytesMut::len`: the number of bytes held.
#[verifier::external_body]
pub(crate) fn buf_len(buf: &bytes::BytesMut) -> (n: usize)
    ensures
        n == buffered(*buf).len(),
{
    buf.len()
}

/// `BytesMut::as_ref`: the bytes held, as a slice.
#[verifier::external_body]
pub(crate) fn buf_as_slice(buf: &bytes::BytesMut) -> (bytes: &[u8])
    ensures
        bytes@ == buffered(*buf),
{
    buf.as_ref()
}

/// `BytesMut::extend_from_slice`: the given bytes are appended behind those held.
#[verifier::external_body]
pub(crate) fn buf_extend(buf: &mut bytes::BytesMut, extend: &[u8])
    ensures
        buffered(*final(buf)) == buffered(*old(buf)) + extend@,
{
    buf.extend_from_slice(extend)
}

/// `BytesMut::split_to`: the first `at` bytes leave the buffer and are returned as a
/// buffer of their own; the buffer keeps the rest. The method panics where `at` is
/// more than the buffer holds.
#[verifier::external_body]
pub(crate) fn buf_split_to(buf: &mut bytes::BytesMut, at: usize) -> (front: bytes::BytesMut)
    requires
        at <= buffered(*old(buf)).len(),
    ensures
        buffered(front) == buffered(*old(buf)).subrange(0, at as int),
        buffered(*final(buf)) == buffered(*old(buf)).subrange(
            at as int,
            buffered(*old(buf)).len() as int,
        ),
{
    buf.split_to(at)
}

/// `Buf::advance` on a `BytesMut`: the first `cnt` bytes are dropped. The method
/// panics where `cnt` is more than the buffer holds.
#[verifier::external_body]
pub(crate) fn buf_advance(buf: &mut bytes::BytesMut, cnt: usize)
    requires
        cnt <= buffered(*old(buf)).len(),
    ensures
        buffered(*final(buf)) == buffered(*old(buf)).subrange(
            cnt as int,
            buffered(*old(buf)).len() as int,
        ),
{
    bytes::Buf::advance(buf, cnt)
}

} // verus!
