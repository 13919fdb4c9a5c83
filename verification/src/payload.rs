//! Payload buffers (`bytes::Bytes`) and the few std and `bytes` calls that
//! move bytes in and out of them.
use vstd::prelude::*;
use vstd::utf8::{valid_utf8, decode_utf8, encode_utf8};
use bytes::Bytes;

verus! {

/// `bytes::Bytes`, the payload buffer; Verus sees it only through
/// [`bytes_content`].
#[verifier::external_type_specification]
#[verifier::external_body]
pub struct ExBytes(bytes::Bytes);

/// The bytes a `Bytes` buffer holds.
pub uninterp spec fn bytes_content(b: Bytes) -> Seq<u8>;

/// `Bytes::from(Vec<u8>)`: the buffer holds the vector's bytes.
#[verifier::external_body]
pub(crate) fn bytes_from_vec(v: Vec<u8>) -> (b: Bytes)
    ensures
        bytes_content(b) == v@,
{
    Bytes::from(v)
}

/// `Vec::<u8>::from(Bytes)`: the vector holds the buffer's bytes.
#[verifier::external_body]
pub(crate) fn bytes_into_vec(b: Bytes) -> (v: Vec<u8>)
    ensures
        v@ == bytes_content(b),
{
    Vec::from(b)
}

/// `Bytes::clone`: another handle on the same bytes.
pub assume_specification[ <bytes::Bytes as core::clone::Clone>::clone ](b: &Bytes) -> (c: Bytes)
    ensures
        bytes_content(c) == bytes_content(*b),
;

/// `Bytes::copy_from_slice`: a buffer holding a copy of the slice.
#[verifier::external_body]
pub(crate) fn bytes_copy_from_slice(s: &[u8]) -> (b: Bytes)
    ensures
        bytes_content(b) == s@,
{
    Bytes::copy_from_slice(s)
}

/// `String::from_utf8`: a string exactly when the bytes are valid UTF-8,
/// holding the characters they encode.
#[verifier::external_body]
pub(crate) fn string_from_utf8(v: Vec<u8>) -> (r: Option<String>)
    ensures
        r is Some <==> valid_utf8(v@),
        r matches Some(s) ==> s@ == decode_utf8(v@),
{
    String::from_utf8(v).ok()
}

/// The UTF-8 bytes of a string, in a payload buffer.
pub fn bytes_of_str(s: &str) -> (b: Bytes)
    ensures
        bytes_content(b) == encode_utf8(s@),
{
    let v = vstd::slice::slice_to_vec(s.as_bytes());
    bytes_from_vec(v)
}

/// The text a payload holds, if it is valid UTF-8.
pub fn payload_text(b: Bytes) -> (r: Option<String>)
    ensures
        r is Some <==> valid_utf8(bytes_content(b)),
        r matches Some(s) ==> s@ == decode_utf8(bytes_content(b)),
{
    string_from_utf8(bytes_into_vec(b))
}

} // verus!
