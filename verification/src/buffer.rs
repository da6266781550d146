//! Byte buffers shared between the framer, the parsed lines and the senders.
//!
//! The buffers themselves come from the `bytes` crate. Their contents are
//! exposed to contracts through [`bytes_of`] and [`bytes_mut_of`]. Every
//! contract in this file is an assumption about that crate, taken from its
//! documentation and source; nothing here is proved.

use bytes::Bytes;
use bytes::BytesMut;
use vstd::prelude::*;

verus! {

/// `bytes::Bytes`, an immutable, cheaply cloneable byte buffer. Verified
/// code sees of it only what [`bytes_of`] tells.
#[verifier::external_type_specification]
#[verifier::external_body]
pub struct ExBytes(bytes::Bytes);

/// `bytes::BytesMut`, a growable byte buffer. Verified code sees of it only
/// what [`bytes_mut_of`] tells.
#[verifier::external_type_specification]
#[verifier::external_body]
pub struct ExBytesMut(bytes::BytesMut);

/// The bytes held by an immutable buffer, in order.
pub uninterp spec fn bytes_of(b: Bytes) -> Seq<u8>;

/// The bytes held by a growable buffer, in order.
pub uninterp spec fn bytes_mut_of(b: BytesMut) -> Seq<u8>;

/// `BytesMut::new` returns a buffer of length zero.
pub assume_specification[ BytesMut::new ]() -> (r: BytesMut)
    ensures
        bytes_mut_of(r) == Seq::<u8>::empty(),
;

/// `BytesMut::with_capacity` returns a buffer that holds no data, whatever
/// the capacity. The allocation behind it refuses more than `isize::MAX`
/// bytes, so larger requests are excluded.
pub assume_specification[ BytesMut::with_capacity ](capacity: usize) -> (r: BytesMut)
    requires
        capacity <= isize::MAX,
    ensures
        bytes_mut_of(r) == Seq::<u8>::empty(),
;

/// `BytesMut::len` returns the number of bytes held.
pub assume_specification[ BytesMut::len ](b: &BytesMut) -> (r: usize)
    ensures
        r == bytes_mut_of(*b).len(),
;

/// `BytesMut::is_empty` tells whether the length is zero.
pub assume_specification[ BytesMut::is_empty ](b: &BytesMut) -> (r: bool)
    ensures
        r == (bytes_mut_of(*b).len() == 0),
;

/// `BytesMut::split_to` returns elements `[0, at)` and leaves `[at, len)` in
/// the buffer. It panics when `at > len`, which the precondition excludes.
pub assume_specification[ BytesMut::split_to ](b: &mut BytesMut, at: usize) -> (r: BytesMut)
    requires
        at <= bytes_mut_of(*old(b)).len(),
    ensures
        bytes_mut_of(r) == bytes_mut_of(*old(b)).subrange(0, at as int),
        bytes_mut_of(*final(b)) == bytes_mut_of(*old(b)).subrange(
            at as int,
            bytes_mut_of(*old(b)).len() as int,
        ),
;

/// `BytesMut::split` returns everything held and leaves the buffer empty.
pub assume_specification[ BytesMut::split ](b: &mut BytesMut) -> (r: BytesMut)
    ensures
        bytes_mut_of(r) == bytes_mut_of(*old(b)),
        bytes_mut_of(*final(b)) == Seq::<u8>::empty(),
;

/// `BytesMut::truncate` keeps the first `len` bytes and drops the rest; a
/// `len` beyond the current length has no effect.
pub assume_specification[ BytesMut::truncate ](b: &mut BytesMut, len: usize)
    ensures
        len <= bytes_mut_of(*old(b)).len() ==> bytes_mut_of(*final(b)) == bytes_mut_of(
            *old(b),
        ).subrange(0, len as int),
        len > bytes_mut_of(*old(b)).len() ==> bytes_mut_of(*final(b)) == bytes_mut_of(*old(b)),
;

/// `BytesMut::clear` removes all data.
pub assume_specification[ BytesMut::clear ](b: &mut BytesMut)
    ensures
        bytes_mut_of(*final(b)) == Seq::<u8>::empty(),
;

/// `BytesMut::extend_from_slice` appends the given bytes, growing the buffer
/// when needed. Growth past `isize::MAX` bytes panics in the allocation, so
/// such sizes are excluded.
pub assume_specification[ BytesMut::extend_from_slice ](b: &mut BytesMut, extend: &[u8])
    requires
        bytes_mut_of(*old(b)).len() + extend@.len() <= isize::MAX,
    ensures
        bytes_mut_of(*final(b)) == bytes_mut_of(*old(b)) + extend@,
;

/// `BytesMut::freeze` converts to an immutable buffer over the same bytes.
pub assume_specification[ BytesMut::freeze ](b: BytesMut) -> (r: Bytes)
    ensures
        bytes_of(r) == bytes_mut_of(b),
;

/// `AsRef<[u8]>` for `BytesMut` borrows the contents as a slice.
pub assume_specification<'a>[ <BytesMut as AsRef<[u8]>>::as_ref ](b: &'a BytesMut) -> (r: &'a [u8])
    ensures
        r@ == bytes_mut_of(*b),
;

/// `Bytes::len` returns the number of bytes held.
pub assume_specification[ Bytes::len ](b: &Bytes) -> (r: usize)
    ensures
        r == bytes_of(*b).len(),
;

/// `AsRef<[u8]>` for `Bytes` borrows the contents as a slice.
pub assume_specification<'a>[ <Bytes as AsRef<[u8]>>::as_ref ](b: &'a Bytes) -> (r: &'a [u8])
    ensures
        r@ == bytes_of(*b),
;

/// `Clone` for `Bytes` returns a handle onto the same bytes without copying
/// them.
pub assume_specification[ <Bytes as Clone>::clone ](b: &Bytes) -> (r: Bytes)
    ensures
        bytes_of(r) == bytes_of(*b),
;

} // verus!
