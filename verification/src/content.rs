//! Byte strings held as [`Bytes`], which hands them on without copying, and texts
//! that are borrowed or owned.

use bytes::Bytes;
use std::borrow::Cow;
use vstd::prelude::*;

verus! {

/// The byte string of the `bytes` crate.
#[verifier::external_type_specification]
#[verifier::external_body]
pub struct ExBytes(Bytes);

/// The bytes that a byte string holds.
pub uninterp spec fn bytes_of(content: Bytes) -> Seq<u8>;

/// An empty byte string, from `Bytes::new`.
#[verifier::external_body]
pub(crate) fn empty() -> (r: Bytes)
    ensures
        bytes_of(r) == Seq::<u8>::empty(),
{
    Bytes::new()
}

/// How many bytes a byte string holds, from `Bytes::len`.
#[verifier::external_body]
pub(crate) fn length(content: &Bytes) -> (r: usize)
    ensures
        r == bytes_of(*content).len(),
{
    content.len()
}

/// A byte string made of a vector, through `Bytes::from`, which keeps the
/// vector's bytes in order.
pub assume_specification[ <Bytes as From<Vec<u8>>>::from ](vec: Vec<u8>) -> (r: Bytes)
    ensures
        bytes_of(r) == vec@,
;

/// A byte string made of a text, through `Bytes::from`, which keeps the text's
/// UTF-8 bytes.
pub assume_specification[ <Bytes as From<&'static str>>::from ](slice: &'static str) -> (r: Bytes)
    ensures
        bytes_of(r) == vstd::utf8::encode_utf8(slice@),
;

/// A byte string made of a string, through `Bytes::from`, which takes over the
/// string's UTF-8 bytes.
pub assume_specification[ <Bytes as From<String>>::from ](s: String) -> (r: Bytes)
    ensures
        bytes_of(r) == vstd::utf8::encode_utf8(s@),
;

/// A byte string made of a slice, through `Bytes::from`, which keeps the slice's
/// bytes in order.
pub assume_specification[ <Bytes as From<&'static [u8]>>::from ](slice: &'static [u8]) -> (r: Bytes)
    ensures
        bytes_of(r) == slice@,
;

/// `From` from a type to itself, of the standard library, which hands the value
/// back. A byte string given as one goes through it.
pub assume_specification<Value>[ <Value as From<Value>>::from ](t: Value) -> (r: Value)
    ensures
        r == t,
;

/// `Bytes::clone`, of the bytes crate: another handle on the same bytes.
pub assume_specification[ <Bytes as Clone>::clone ](bytes: &Bytes) -> (r: Bytes)
    ensures
        bytes_of(r) == bytes_of(*bytes),
;

/// A text made of a slice, through `Cow::from`, which borrows it.
pub assume_specification<'a>[ <Cow<'a, str> as From<&'a str>>::from ](s: &'a str) -> (r: Cow<
    'a,
    str,
>)
    ensures
        r@ == s@,
        r is Borrowed,
;

/// A text made of a string, through `Cow::from`, which takes it over.
pub assume_specification<'a>[ <Cow<'a, str> as From<String>>::from ](s: String) -> (r: Cow<'a, str>)
    ensures
        r@ == s@,
        r is Owned,
;

} // verus!
