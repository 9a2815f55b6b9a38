//! Trusted boundary around the `bytes::BytesMut` storage region.
//!
//! The ring buffer keeps its bytes in a `BytesMut`. Verus treats that type as
//! opaque; `bytes_model` names the sequence of bytes it holds, and each
//! wrapper below states, over that name, what one `BytesMut` operation does.

use vstd::prelude::*;
use bytes::BufMut;
use bytes::BytesMut;

verus! {

/// Declares `bytes::BytesMut` so that it can stand in signatures and fields.
#[verifier::external_type_specification]
#[verifier::external_body]
pub struct ExBytesMut(BytesMut);

/// The bytes held by a `BytesMut`, in order, as a mathematical sequence.
pub uninterp spec fn bytes_model(b: BytesMut) -> Seq<u8>;

/// Relies on `bytes::BytesMut::with_capacity`: returns an empty buffer that
/// can hold at least `n` bytes without reallocating. The bound on `n` keeps
/// the allocation below the capacity-overflow panic of the allocator.
#[verifier::external_body]
pub(crate) fn bytes_with_capacity(n: usize) -> (r: BytesMut)
    requires
        n <= usize::MAX / 2,
    ensures
        bytes_model(r) == Seq::<u8>::empty(),
{
    BytesMut::with_capacity(n)
}

/// Relies on `bytes::BytesMut::len`: the number of bytes currently held.
#[verifier::external_body]
pub(crate) fn bytes_len(b: &BytesMut) -> (r: usize)
    ensures
        r == bytes_model(*b).len(),
{
    b.len()
}

/// Relies on `<BytesMut as Deref>::deref` and the slice read it exposes:
/// `get(i)` returns the byte at `i` when `i` is in bounds, and nothing
/// otherwise.
#[verifier::external_body]
pub(crate) fn bytes_get(b: &BytesMut, i: usize) -> (r: Option<u8>)
    ensures
        i < bytes_model(*b).len() ==> r == Some(bytes_model(*b)[i as int]),
        i >= bytes_model(*b).len() ==> r is None,
{
    match b.get(i) {
        Some(v) => Some(*v),
        None => None,
    }
}

/// Relies on `<BytesMut as BufMut>::put_u8`: appends one byte at the end.
/// The length bound keeps the growth below the allocator's capacity-overflow
/// panic.
#[verifier::external_body]
pub(crate) fn bytes_push(b: &mut BytesMut, v: u8)
    requires
        bytes_model(*old(b)).len() < usize::MAX / 2,
    ensures
        bytes_model(*final(b)) == bytes_model(*old(b)).push(v),
{
    b.put_u8(v);
}

/// Relies on `<BytesMut as DerefMut>::deref_mut` and the slice write it
/// exposes: assigning to index `i` replaces that byte and nothing else.
/// The bound on `i` keeps the write inside the slice, where indexing cannot
/// panic.
#[verifier::external_body]
pub(crate) fn bytes_set(b: &mut BytesMut, i: usize, v: u8)
    requires
        i < bytes_model(*old(b)).len(),
    ensures
        bytes_model(*final(b)) == bytes_model(*old(b)).update(i as int, v),
{
    b[i] = v;
}

} // verus!
