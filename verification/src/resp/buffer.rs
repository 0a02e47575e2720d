//! The receive buffer. A connection's undecoded bytes live in a
//! `bytes::BytesMut`; the codec reads its contents and removes decoded
//! frames from its head.

use vstd::prelude::*;
use bytes::BytesMut;

verus! {

/// `bytes::BytesMut`, a growable byte buffer. Nothing is known of a value
/// but what [`buffered`] says.
#[verifier::external_type_specification]
#[verifier::external_body]
pub struct ExBytesMut(BytesMut);

/// The bytes that a buffer holds, first to last.
pub uninterp spec fn buffered(buf: &BytesMut) -> Seq<u8>;

/// `BytesMut::split_to`: afterwards the buffer holds the bytes from index
/// `at` on, and the returned buffer holds the bytes before `at`. The call
/// panics where `at` exceeds the length, which `requires` rules out.
pub assume_specification[ BytesMut::split_to ](buf: &mut BytesMut, at: usize) -> (head: BytesMut)
    requires
        at <= buffered(old(buf)).len(),
    ensures
        buffered(&head) == buffered(old(buf)).take(at as int),
        buffered(final(buf)) == buffered(old(buf)).skip(at as int),
;

/// `BytesMut`'s `Deref`: the buffer's contents as a slice.
pub assume_specification<'a>[ <BytesMut as core::ops::Deref>::deref ](buf: &'a BytesMut) -> (s:
    &'a [u8])
    ensures
        s@ == buffered(buf),
;

/// Removes the first `used` bytes from the buffer.
pub(crate) fn consume(buf: &mut BytesMut, used: usize)
    requires
        used <= buffered(old(buf)).len(),
    ensures
        buffered(final(buf)) == buffered(old(buf)).skip(used as int),
{
    let _ = buf.split_to(used);
}

} // verus!
