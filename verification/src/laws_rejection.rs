//! What is never read: the inputs that every mode refuses, each with the
//! error that tells why.

use crate::bigendian::be_value;
use crate::error::{OerError, ParseError};
use crate::oer::{decode_length, decode_var_octet_string, decode_var_uint};
use crate::packet::{
    decode_envelope, decode_packet, decode_protocol_data, decode_protocol_entries, decode_string,
    PacketView, ProtocolDataView, ERROR, MESSAGE, RESPONSE,
};
use crate::timestamp::{decode_timestamp, parse_timestamp, TimestampView};
use vstd::prelude::*;
use vstd::utf8::valid_utf8;

verus! {

/// No bytes are no packet.
pub proof fn lemma_rejects_empty_input(strict: bool)
    ensures
        decode_packet(Seq::empty(), strict) == Err::<PacketView, ParseError>(
            ParseError::IoErr(OerError::UnexpectedEof),
        ),
{
}

/// A first byte that is no packet type is refused, and the error names it.
pub proof fn lemma_rejects_unknown_type(bytes: Seq<u8>, strict: bool)
    requires
        bytes.len() > 0,
        bytes[0] != MESSAGE,
        bytes[0] != RESPONSE,
        bytes[0] != ERROR,
    ensures
        decode_packet(bytes, strict) == Err::<PacketView, ParseError>(
            ParseError::InvalidPacket { found: bytes[0], expected: None },
        ),
{
}

/// A first byte that is not the packet type asked for is refused, and the
/// error names both.
pub proof fn lemma_rejects_other_type(bytes: Seq<u8>, expected: u8, strict: bool)
    requires
        bytes.len() > 0,
        bytes[0] != expected,
    ensures
        decode_envelope(bytes, expected, strict) == Err::<(u32, Seq<u8>), ParseError>(
            ParseError::InvalidPacket { found: bytes[0], expected: Some(expected) },
        ),
{
}

/// The length byte `0x80`, a length of unknown size, is refused.
pub proof fn lemma_rejects_indefinite_length(bytes: Seq<u8>, strict: bool)
    requires
        bytes.len() > 0,
        bytes[0] == 0x80,
    ensures
        decode_length(bytes, strict) == Err::<(nat, nat), OerError>(OerError::IndefiniteLength),
{
}

/// A length of more than eight bytes is refused.
pub proof fn lemma_rejects_long_length_of_length(bytes: Seq<u8>, strict: bool)
    requires
        bytes.len() > 0,
        bytes[0] > 0x88,
    ensures
        decode_length(bytes, strict) == Err::<(nat, nat), OerError>(
            OerError::LengthPrefixTooLarge,
        ),
{
}

/// A length below 128 in the long form with one length byte is refused,
/// in strict mode and in lenient mode alike.
pub proof fn lemma_rejects_short_length_in_long_form(bytes: Seq<u8>, strict: bool)
    requires
        bytes.len() >= 2,
        bytes[0] == 0x81,
        bytes[1] < 128,
    ensures
        decode_length(bytes, strict) == Err::<(nat, nat), OerError>(
            OerError::UnnecessaryMultibyteLength,
        ),
{
    let field = bytes.subrange(1, 2);
    assert(be_value(field) == bytes[1]) by {
        reveal_with_fuel(be_value, 2);
    }
}

/// A length that the platform's size type cannot hold is refused.
pub proof fn lemma_rejects_length_overflow(bytes: Seq<u8>, strict: bool)
    requires
        bytes.len() > 0,
        0x80 < bytes[0] <= 0x88,
        bytes.len() > bytes[0] - 0x80,
        be_value(bytes.subrange(1, 1 + (bytes[0] - 0x80))) > usize::MAX,
    ensures
        decode_length(bytes, strict) is Err,
        decode_length(bytes, false) == Err::<(nat, nat), OerError>(OerError::LengthOverflow),
{
}

/// A length that announces more bytes than there are is refused.
pub proof fn lemma_rejects_truncated_content(bytes: Seq<u8>, strict: bool)
    requires
        decode_length(bytes, strict) matches Ok((length, used)) && bytes.len() < used + length,
    ensures
        decode_var_octet_string(bytes, strict) == Err::<(Seq<u8>, nat), OerError>(
            OerError::UnexpectedEof,
        ),
{
}

/// Bytes after the contents of a packet are refused.
pub proof fn lemma_rejects_bytes_after_contents(bytes: Seq<u8>, expected: u8, strict: bool)
    requires
        bytes.len() >= 5,
        bytes[0] == expected,
        decode_var_octet_string(bytes.skip(5), strict) matches Ok((_, used)) && 5 + used
            < bytes.len(),
    ensures
        decode_envelope(bytes, expected, strict) == Err::<(u32, Seq<u8>), ParseError>(
            ParseError::IoErr(OerError::TrailingBytes),
        ),
{
}

/// Bytes after the last entry of a protocol data list are refused.
pub proof fn lemma_rejects_bytes_after_entries(bytes: Seq<u8>, strict: bool)
    requires
        decode_var_uint(bytes, strict) matches Ok((count, used)) && (decode_protocol_entries(
            bytes.skip(used as int),
            count,
            strict,
        ) matches Ok((_, more)) && used + more < bytes.len()),
    ensures
        decode_protocol_data(bytes, strict) == Err::<
            Seq<ProtocolDataView>,
            ParseError,
        >(ParseError::IoErr(OerError::TrailingBytes)),
{
}

/// A string whose bytes are not valid UTF-8 is refused.
pub proof fn lemma_rejects_invalid_utf8(bytes: Seq<u8>, strict: bool)
    requires
        decode_var_octet_string(bytes, strict) matches Ok((octets, _)) && !valid_utf8(octets),
    ensures
        decode_string(bytes, strict) == Err::<(Seq<char>, nat), ParseError>(ParseError::Utf8Err),
        decode_timestamp(bytes, strict) == Err::<(TimestampView, nat), OerError>(
            OerError::InvalidUtf8,
        ),
{
}

/// A timestamp whose text does not follow the grammar is refused.
pub proof fn lemma_rejects_malformed_timestamp(bytes: Seq<u8>, strict: bool)
    requires
        decode_var_octet_string(bytes, strict) matches Ok((octets, _)) && valid_utf8(octets)
            && parse_timestamp(octets) is None,
    ensures
        decode_timestamp(bytes, strict) == Err::<(TimestampView, nat), OerError>(
            OerError::InvalidTimestamp,
        ),
{
}

} // verus!
