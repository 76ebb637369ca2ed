//! A fixed-capacity byte buffer backed by `heapless::Vec`.
//!
//! Verus cannot look inside the `heapless` collection, so the buffer is opaque
//! to the verifier: its contents are named by [`buf_bytes`], and each method of
//! the collection that the library calls is wrapped in a function whose
//! contract restates what the method's source does.
use vstd::prelude::*;

use crate::MAX_PAYLOAD_SIZE;

verus! {

#[verifier::external_type_specification]
#[verifier::external_body]
pub struct ExCapacityError(heapless::CapacityError);

/// A sequence of at most [`MAX_PAYLOAD_SIZE`] bytes, stored inline.
#[verifier::external_body]
#[derive(Debug, PartialEq, Eq)]
pub struct ByteBuf {
    inner: heapless::Vec<u8, MAX_PAYLOAD_SIZE>,
}

/// The bytes that a buffer holds, in order.
pub uninterp spec fn buf_bytes(b: ByteBuf) -> Seq<u8>;

impl View for ByteBuf {
    type V = Seq<u8>;

    open spec fn view(&self) -> Seq<u8> {
        buf_bytes(*self)
    }
}

/// The error of [`ByteBuf::from_slice`]: the slice is longer than
/// [`MAX_PAYLOAD_SIZE`].
#[derive(Debug, Clone, Copy, PartialEq, Eq, Structural)]
pub struct CapacityExceeded;

/// `heapless::Vec::from_slice`: starts from an empty vector and extends it by
/// the slice. The extension fails, changing nothing, exactly when the slice is
/// longer than the capacity; otherwise the vector holds a copy of the slice.
#[verifier::external_body]
fn vec_from_slice(s: &[u8]) -> (r: Result<ByteBuf, heapless::CapacityError>)
    ensures
        r is Ok <==> s@.len() <= MAX_PAYLOAD_SIZE,
        r matches Ok(b) ==> buf_bytes(b) == s@,
{
    match heapless::Vec::from_slice(s) {
        Ok(inner) => Ok(ByteBuf { inner }),
        Err(e) => Err(e),
    }
}

/// `heapless::Vec::as_slice`: the initialised part of the inline array, which
/// is the vector's contents. The array has [`MAX_PAYLOAD_SIZE`] slots, so the
/// slice is never longer than that.
#[verifier::external_body]
fn vec_as_slice(b: &ByteBuf) -> (s: &[u8])
    ensures
        s@ == buf_bytes(*b),
        s@.len() <= MAX_PAYLOAD_SIZE,
{
    b.inner.as_slice()
}

/// `heapless::Vec::as_mut_slice`: the contents as a mutable slice. Writes
/// through the slice are writes to the vector; its length cannot change.
#[verifier::external_body]
pub(crate) fn vec_as_mut_slice(b: &mut ByteBuf) -> (s: &mut [u8])
    ensures
        s@ == buf_bytes(*old(b)),
        buf_bytes(*final(b)) == final(s)@,
{
    b.inner.as_mut_slice()
}

/// `heapless::Vec::truncate`: keeps the first `len` bytes and drops the rest;
/// does nothing when `len` is greater than the current length.
#[verifier::external_body]
pub(crate) fn vec_truncate(b: &mut ByteBuf, len: usize)
    ensures
        buf_bytes(*final(b)) == (if len <= buf_bytes(*old(b)).len() {
            buf_bytes(*old(b)).subrange(0, len as int)
        } else {
            buf_bytes(*old(b))
        }),
{
    b.inner.truncate(len)
}

/// `heapless::Vec::from` an array (`from_array`): the vector holds the array's
/// elements, all of them, in order.
#[verifier::external_body]
pub(crate) fn vec_from_array(src: [u8; MAX_PAYLOAD_SIZE]) -> (b: ByteBuf)
    ensures
        buf_bytes(b) == src@,
{
    ByteBuf { inner: heapless::Vec::from(src) }
}

impl Clone for ByteBuf {
    fn clone(&self) -> (r: Self)
        ensures
            r@ == self@,
    {
        match vec_from_slice(vec_as_slice(self)) {
            Ok(copy) => copy,
            Err(_) => unreached(),
        }
    }
}

impl ByteBuf {
    /// Copies `s` into a new buffer, or reports that it does not fit.
    pub fn from_slice(s: &[u8]) -> (r: Result<ByteBuf, CapacityExceeded>)
        ensures
            r is Ok <==> s@.len() <= MAX_PAYLOAD_SIZE,
            r matches Ok(b) ==> b@ == s@,
    {
        match vec_from_slice(s) {
            Ok(b) => Ok(b),
            Err(_) => Err(CapacityExceeded),
        }
    }

    /// The bytes of the buffer.
    pub fn as_slice(&self) -> (s: &[u8])
        ensures
            s@ == self@,
            s@.len() <= MAX_PAYLOAD_SIZE,
    {
        vec_as_slice(self)
    }

    /// The number of bytes in the buffer.
    pub fn len(&self) -> (n: usize)
        ensures
            n == self@.len(),
            n <= MAX_PAYLOAD_SIZE,
    {
        vec_as_slice(self).len()
    }

    /// Whether the buffer holds no byte.
    pub fn is_empty(&self) -> (e: bool)
        ensures
            e <==> self@.len() == 0,
    {
        vec_as_slice(self).len() == 0
    }
}

} // verus!
