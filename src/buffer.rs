//! Byte buffers: the `bytes::Bytes` type as seen by the proofs, and
//! big-endian integer reads over byte sequences.

use bytes::Buf;
use bytes::Bytes;
use vstd::prelude::*;

verus! {

/// Declares `bytes::Bytes`, the shared byte-buffer handle, to the proofs as
/// an opaque type; what it holds is given by `bytes_view`.
#[verifier::external_type_specification]
#[verifier::external_body]
pub struct ExBytes(Bytes);

/// The bytes that a `Bytes` handle refers to, in order.
pub uninterp spec fn bytes_view(b: Bytes) -> Seq<u8>;

/// Relies on `Bytes::copy_from_slice`: the new handle holds a copy of `data`.
pub assume_specification[ Bytes::copy_from_slice ](data: &[u8]) -> (r: Bytes)
    ensures
        bytes_view(r) == data@,
;

/// Relies on `Bytes`'s `AsRef<[u8]>`: the slice holds the bytes of the handle.
#[verifier::external_body]
pub(crate) fn bytes_as_slice(b: &Bytes) -> (r: &[u8])
    ensures
        r@ == bytes_view(*b),
{
    b.as_ref()
}

/// Relies on `Buf::advance` for `Bytes`: drops the first `n` bytes of the
/// handle (it panics when `n` exceeds the length, hence the precondition).
#[verifier::external_body]
pub(crate) fn bytes_advance(b: &mut Bytes, n: usize)
    requires
        n <= bytes_view(*old(b)).len(),
    ensures
        bytes_view(*final(b)) == bytes_view(*old(b)).subrange(n as int, bytes_view(*old(b)).len() as int),
{
    b.advance(n)
}

/// The big-endian 16-bit integer held at `s[i]`, `s[i + 1]`.
pub open spec fn be_u16(s: Seq<u8>, i: int) -> u16 {
    (s[i] as int * 0x100 + s[i + 1] as int) as u16
}

/// The big-endian 32-bit integer held at `s[i]` .. `s[i + 3]`.
pub open spec fn be_u32(s: Seq<u8>, i: int) -> u32 {
    (s[i] as int * 0x100_0000 + s[i + 1] as int * 0x1_0000 + s[i + 2] as int * 0x100
        + s[i + 3] as int) as u32
}

/// Reads a big-endian `u16` at offset `i`.
pub fn read_u16(buf: &[u8], i: usize) -> (r: u16)
    requires
        i + 2 <= buf@.len(),
    ensures
        r == be_u16(buf@, i as int),
{
    (buf[i] as u16) * 0x100 + (buf[i + 1] as u16)
}

/// Reads a big-endian `u32` at offset `i`.
pub fn read_u32(buf: &[u8], i: usize) -> (r: u32)
    requires
        i + 4 <= buf@.len(),
    ensures
        r == be_u32(buf@, i as int),
{
    (buf[i] as u32) * 0x100_0000 + (buf[i + 1] as u32) * 0x1_0000 + (buf[i + 2] as u32) * 0x100
        + (buf[i + 3] as u32)
}

} // verus!
