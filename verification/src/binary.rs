//! The byte buffers of the `algorithm` crate, as this library sees them.
//!
//! `BinaryMut` is a growable buffer with a read cursor, `Binary` its immutable
//! counterpart. Their readable bytes are named by [`mut_bytes`] and
//! [`bin_bytes`]; every function here states what one buffer operation does to
//! those bytes. None of these contracts is proved: they restate the buffers'
//! source.

use vstd::prelude::*;
use algorithm::buf::{Binary, BinaryMut, Bt};

verus! {

#[verifier::external_type_specification]
#[verifier::external_body]
pub struct ExBinaryMut(BinaryMut);

#[verifier::external_type_specification]
#[verifier::external_body]
pub struct ExBinary(Binary);

/// The readable bytes of a `BinaryMut`: those between its cursor and its write
/// position.
pub uninterp spec fn mut_bytes(b: BinaryMut) -> Seq<u8>;

/// The readable bytes of a `Binary`.
pub uninterp spec fn bin_bytes(b: Binary) -> Seq<u8>;

/// `BinaryMut::new`: a buffer with no readable bytes.
#[verifier::external_body]
pub(crate) fn new_mut() -> (b: BinaryMut)
    ensures
        mut_bytes(b) == Seq::<u8>::empty(),
{
    BinaryMut::new()
}

/// `BinaryMut::put_slice`: appends `src` behind the readable bytes and returns
/// its length.
#[verifier::external_body]
pub(crate) fn put_slice(b: &mut BinaryMut, src: &[u8]) -> (n: usize)
    ensures
        mut_bytes(*final(b)) == mut_bytes(*old(b)) + src@,
        n == src@.len(),
{
    b.put_slice(src)
}

/// `Bt::remaining` of a `BinaryMut`: the number of readable bytes.
#[verifier::external_body]
pub(crate) fn remaining(b: &BinaryMut) -> (n: usize)
    ensures
        n == mut_bytes(*b).len(),
{
    b.remaining()
}

/// `Bt::chunk` of a `BinaryMut`: the readable bytes as one slice.
#[verifier::external_body]
pub(crate) fn chunk(b: &BinaryMut) -> (s: &[u8])
    ensures
        s@ == mut_bytes(*b),
{
    b.chunk()
}

/// `Bt::advance` of a `BinaryMut`: drops the first `n` readable bytes. The
/// buffer does not check `n` in a release build, so the caller must.
#[verifier::external_body]
pub(crate) fn advance(b: &mut BinaryMut, n: usize)
    requires
        n <= mut_bytes(*old(b)).len(),
    ensures
        mut_bytes(*final(b)) == mut_bytes(*old(b)).skip(n as int),
{
    b.advance(n)
}

/// `BinaryMut::freeze`: an immutable buffer with the same readable bytes.
#[verifier::external_body]
pub(crate) fn freeze(b: BinaryMut) -> (r: Binary)
    ensures
        bin_bytes(r) == mut_bytes(b),
{
    b.freeze()
}

/// `Bt::chunk` of a `Binary`: the readable bytes as one slice.
#[verifier::external_body]
pub(crate) fn bin_chunk(b: &Binary) -> (s: &[u8])
    ensures
        s@ == bin_bytes(*b),
{
    b.chunk()
}

/// `BinaryMut::from` a `Vec<u8>`: a buffer whose readable bytes are the
/// vector's.
#[verifier::external_body]
pub(crate) fn mut_from_vec(v: Vec<u8>) -> (r: BinaryMut)
    ensures
        mut_bytes(r) == v@,
{
    BinaryMut::from(v)
}

/// Drops every readable byte of the buffer.
pub(crate) fn advance_all(b: &mut BinaryMut)
    ensures
        mut_bytes(*final(b)) == Seq::<u8>::empty(),
{
    let n = remaining(b);
    advance(b, n);
}

/// A writable buffer with the readable bytes of `b`.
pub(crate) fn thaw(b: Binary) -> (r: BinaryMut)
    ensures
        mut_bytes(r) == bin_bytes(b),
{
    let mut r = new_mut();
    put_slice(&mut r, bin_chunk(&b));
    proof {
        assert(mut_bytes(r) =~= bin_bytes(b));
    }
    r
}

} // verus!
