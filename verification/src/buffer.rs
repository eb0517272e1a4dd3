//! Appending to a byte buffer through `bytes::BufMut`, which the encoders use.
use vstd::prelude::*;
use bytes::BufMut;

verus! {

/// Calls `BufMut::put_u8` on a `Vec<u8>`; bytes 1.x implements it for `Vec`
/// by extending the vector with the one byte, so the contract claims that
/// exactly `n` is appended.
#[verifier::external_body]
pub(crate) fn put_u8(buf: &mut Vec<u8>, n: u8)
    ensures
        final(buf)@ == old(buf)@.push(n),
{
    buf.put_u8(n)
}

/// Calls `BufMut::put_slice` on a `Vec<u8>`; bytes 1.x implements it for `Vec`
/// with `extend_from_slice`, so the contract claims that `src` is appended.
#[verifier::external_body]
pub(crate) fn put_slice(buf: &mut Vec<u8>, src: &[u8])
    ensures
        final(buf)@ == old(buf)@ + src@,
{
    buf.put_slice(src)
}

/// Calls `BufMut::put` with a byte slice as the source on a `Vec<u8>`; the
/// `Vec` implementation extends the vector with every chunk of the source, so
/// the contract claims that the slice is appended.
#[verifier::external_body]
pub(crate) fn put(buf: &mut Vec<u8>, src: &[u8])
    ensures
        final(buf)@ == old(buf)@ + src@,
{
    buf.put(src)
}

/// The four big-endian bytes of `n`.
pub open spec fn be_bytes_u32(n: u32) -> Seq<u8> {
    seq![
        (n / 0x100_0000) as u8,
        ((n / 0x1_0000) % 0x100) as u8,
        ((n / 0x100) % 0x100) as u8,
        (n % 0x100) as u8,
    ]
}

/// Calls `BufMut::put_u32`, which writes `n.to_be_bytes()` through
/// `put_slice`; the contract claims that the four big-endian bytes of `n` are
/// appended.
#[verifier::external_body]
pub(crate) fn put_u32(buf: &mut Vec<u8>, n: u32)
    ensures
        final(buf)@ == old(buf)@ + be_bytes_u32(n),
{
    buf.put_u32(n)
}

} // verus!
