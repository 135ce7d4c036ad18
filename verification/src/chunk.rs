//! Chunks of a body or of a tunnel, held in [`bytes::Bytes`], and their texts.

use vstd::prelude::*;
use vstd::slice::*;
use vstd::utf8::*;

verus! {

/// [`bytes::Bytes`].
#[verifier::external_type_specification]
#[verifier::external_body]
pub struct ExBytes(bytes::Bytes);

/// The bytes that a chunk holds.
pub uninterp spec fn chunk_bytes(chunk: bytes::Bytes) -> Seq<u8>;

/// `bytes::Bytes::copy_from_slice`: the chunk holds the bytes of the slice.
pub assume_specification[ bytes::Bytes::copy_from_slice ](data: &[u8]) -> (r: bytes::Bytes)
    ensures
        chunk_bytes(r) == data@,
;

/// `bytes::Bytes::is_empty`: whether the chunk holds no byte.
pub assume_specification[ bytes::Bytes::is_empty ](chunk: &bytes::Bytes) -> (r: bool)
    ensures
        r == (chunk_bytes(*chunk).len() == 0),
;

/// The bytes of a chunk, by `AsRef<[u8]>` of [`bytes::Bytes`].
#[verifier::external_body]
fn chunk_slice(chunk: &bytes::Bytes) -> (r: &[u8])
    ensures
        r@ == chunk_bytes(*chunk),
{
    chunk.as_ref()
}

/// The text that std reads a byte string as, with the replacement character in place of
/// what is no UTF-8.
pub uninterp spec fn lossy(bytes: Seq<u8>) -> Seq<char>;

/// `String::from_utf8_lossy`: the text is a function of the bytes, and what is UTF-8 is
/// read as it is.
#[verifier::external_body]
fn read_lossy(bytes: &[u8]) -> (r: String)
    ensures
        r@ == lossy(bytes@),
        valid_utf8(bytes@) ==> r@ == decode_utf8(bytes@),
{
    String::from_utf8_lossy(bytes).into_owned()
}

/// The text that a byte string is printed as.
pub fn printable(bytes: &[u8]) -> (r: String)
    ensures
        r@ == lossy(bytes@),
        valid_utf8(bytes@) ==> r@ == decode_utf8(bytes@),
{
    read_lossy(bytes)
}

/// The text that a chunk is printed as.
pub fn chunk_text(chunk: &bytes::Bytes) -> (r: String)
    ensures
        r@ == lossy(chunk_bytes(*chunk)),
        valid_utf8(chunk_bytes(*chunk)) ==> r@ == decode_utf8(chunk_bytes(*chunk)),
{
    printable(chunk_slice(chunk))
}

/// A chunk of the first `n` bytes of a buffer.
pub fn filled_part(buf: &[u8], n: usize) -> (r: bytes::Bytes)
    requires
        n <= buf@.len(),
    ensures
        chunk_bytes(r) == buf@.take(n as int),
{
    bytes::Bytes::copy_from_slice(slice_subrange(buf, 0, n))
}

/// The bytes of a buffer that a read has filled.
pub fn read_part(buffer: &[u8], bytes_read: u64) -> (r: Vec<u8>)
    requires
        bytes_read <= buffer@.len(),
    ensures
        r@ == buffer@.take(bytes_read as int),
{
    let size: usize = buffer.len();
    assert(bytes_read <= size);
    slice_to_vec(slice_subrange(buffer, 0, bytes_read as usize))
}

/// Puts the bytes of a chunk behind those of a body.
pub fn extend_body(body: &mut Vec<u8>, chunk: &bytes::Bytes)
    ensures
        final(body)@ == old(body)@ + chunk_bytes(*chunk),
{
    body.extend_from_slice(chunk_slice(chunk));
}

} // verus!
