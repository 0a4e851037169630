//! The chunk type of a streaming body: an immutable, reference-counted,
//! cheaply cloneable view over a contiguous byte range, provided by
//! `bytes::Bytes`. The type is opaque to the verifier; `chunk_contents`
//! names the byte sequence a chunk holds, and the trusted conversions
//! below relate it to plain `Vec<u8>` and `String` values.

use vstd::prelude::*;
use vstd::utf8::encode_utf8;
use bytes::Bytes;

verus! {

/// Declares `bytes::Bytes` to the verifier as an opaque type: a shared,
/// immutable handle to a byte buffer, read only through `chunk_contents`.
#[verifier::external_type_specification]
#[verifier::external_body]
pub struct ExBytes(Bytes);

/// Declares `std::io::Error` to the verifier as an opaque type: body
/// streams yield it and the library carries it through unchanged.
#[verifier::external_type_specification]
#[verifier::external_body]
pub struct ExIoError(std::io::Error);

/// The sequence of bytes that a chunk holds.
pub uninterp spec fn chunk_contents(chunk: Bytes) -> Seq<u8>;

/// Relies on `impl From<Vec<u8>> for Bytes`: the chunk holds exactly the
/// vector's bytes, shared rather than copied.
#[verifier::external_body]
pub(crate) fn chunk_from_vec(buf: Vec<u8>) -> (chunk: Bytes)
    ensures
        chunk_contents(chunk) == buf@,
{
    Bytes::from(buf)
}

/// Relies on `impl From<String> for Bytes`: the chunk holds the string's
/// UTF-8 encoding (the string's backing bytes).
#[verifier::external_body]
pub(crate) fn chunk_from_string(text: String) -> (chunk: Bytes)
    ensures
        chunk_contents(chunk) == encode_utf8(text@),
{
    Bytes::from(text)
}

/// Relies on `impl From<Bytes> for Vec<u8>`: the vector holds exactly the
/// chunk's bytes.
#[verifier::external_body]
pub(crate) fn chunk_into_vec(chunk: Bytes) -> (buf: Vec<u8>)
    ensures
        buf@ == chunk_contents(chunk),
{
    Vec::from(chunk)
}

} // verus!
