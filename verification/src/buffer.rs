//! Taking an octet string out of a `bytes::BytesMut` without copying it.

use crate::error::OerError;
use crate::oer::decode_var_octet_string;
use crate::reader::BufOerExt;
use bytes::BytesMut;
use vstd::prelude::*;

verus! {

/// `bytes::BytesMut`, a buffer of bytes that can be split without copying.
#[verifier::external_type_specification]
#[verifier::external_body]
pub struct ExBytesMut(bytes::BytesMut);

/// The bytes that a buffer holds, first to last.
pub uninterp spec fn buffer_bytes(buffer: BytesMut) -> Seq<u8>;

/// `BytesMut`'s view as a slice (`AsRef<[u8]>`): the bytes that the buffer
/// holds.
#[verifier::external_body]
fn as_slice(buffer: &BytesMut) -> (bytes: &[u8])
    ensures
        bytes@ == buffer_bytes(*buffer),
{
    buffer.as_ref()
}

/// `BytesMut::split_off`: the buffer keeps its first `at` bytes, and the
/// bytes from `at` on are handed out.
#[verifier::external_body]
fn split_off(buffer: &mut BytesMut, at: usize) -> (tail: BytesMut)
    requires
        at <= buffer_bytes(*old(buffer)).len(),
    ensures
        buffer_bytes(*final(buffer)) == buffer_bytes(*old(buffer)).take(at as int),
        buffer_bytes(tail) == buffer_bytes(*old(buffer)).skip(at as int),
{
    buffer.split_off(at)
}

/// `BytesMut::split_to`: the first `at` bytes are handed out, and the buffer
/// keeps the bytes from `at` on.
#[verifier::external_body]
fn split_to(buffer: &mut BytesMut, at: usize) -> (head: BytesMut)
    requires
        at <= buffer_bytes(*old(buffer)).len(),
    ensures
        buffer_bytes(head) == buffer_bytes(*old(buffer)).take(at as int),
        buffer_bytes(*final(buffer)) == buffer_bytes(*old(buffer)).skip(at as int),
{
    buffer.split_to(at)
}

/// The content of the octet string at the start of `buffer`, in the
/// buffer's own memory.
pub fn extract_var_octet_string(buffer: BytesMut, strict: bool) -> (res: Result<
    BytesMut,
    OerError,
>)
    ensures
        match decode_var_octet_string(buffer_bytes(buffer), strict) {
            Ok((content, _)) => res matches Ok(b) && buffer_bytes(b) == content,
            Err(e) => res matches Err(r) && r == e,
        },
{
    let mut buffer = buffer;
    let buffer_length = as_slice(&buffer).len();
    let mut reader = as_slice(&buffer);
    let content_length = reader.read_var_octet_string_length(strict)?;
    let content_offset = buffer_length - reader.len();
    let mut remaining = split_off(&mut buffer, content_offset);
    if as_slice(&remaining).len() < content_length {
        Err(OerError::UnexpectedEof)
    } else {
        Ok(split_to(&mut remaining, content_length))
    }
}

} // verus!
