//! Decoding packets from bytes and encoding them to bytes.

use crate::bigendian::{be_bytes, put_u32_be, read_u32_be};
use crate::error::{OerError, ParseError};
use crate::packet::{
    decode_envelope, decode_error, decode_message, decode_packet,
    decode_protocol_data, decode_protocol_entries, decode_protocol_entry, decode_response,
    decode_string, encode_error, encode_error_contents, encode_message, encode_packet,
    encode_protocol_data,
    encode_protocol_entries, encode_protocol_entry, encode_response, entries_view, BtpError,
    BtpMessage, BtpPacket, BtpResponse, ContentType, PacketType, ProtocolData, ProtocolDataView,
};
use crate::reader::BufOerExt;
use crate::text::str_from_utf8;
use crate::writer::MutBufOerExt;
use vstd::prelude::*;
use vstd::slice::{slice_subrange, slice_to_vec};

verus! {

/// A value with a form on the wire.
pub trait Serializable<T> {
    /// Whether `outcome` is what reading `bytes`, all of them, comes to.
    spec fn decodes_to(bytes: Seq<u8>, strict: bool, outcome: Result<T, ParseError>) -> bool;

    /// The bytes of the value.
    spec fn encoded(&self) -> Seq<u8>;

    /// The value that `bytes` are, all of them. With `strict`, only the
    /// shortest form of every length is taken.
    fn from_bytes(bytes: &[u8], strict: bool) -> (res: Result<T, ParseError>)
        ensures
            Self::decodes_to(bytes@, strict, res),
    ;

    /// The bytes of the value.
    fn to_bytes(&self) -> (bytes: Vec<u8>)
        ensures
            bytes@ == self.encoded(),
    ;
}

/// A failure to read a primitive, as a failure to read a packet.
fn io<T>(res: Result<T, OerError>) -> (out: Result<T, ParseError>)
    ensures
        match res {
            Ok(v) => out == Ok::<T, ParseError>(v),
            Err(e) => out == Err::<T, ParseError>(ParseError::IoErr(e)),
        },
{
    match res {
        Ok(v) => Ok(v),
        Err(e) => Err(ParseError::IoErr(e)),
    }
}

/// Nothing may follow the end of a declared region.
pub fn check_no_trailing_bytes(buf: &[u8]) -> (res: Result<(), OerError>)
    ensures
        res == if buf@.len() > 0 {
            Err::<(), OerError>(OerError::TrailingBytes)
        } else {
            Ok(())
        },
{
    if buf.len() != 0 {
        return Err(OerError::TrailingBytes);
    }
    Ok(())
}

/// The string at the cursor, which moves past it.
fn read_string<'a>(reader: &mut &'a [u8], strict: bool) -> (res: Result<String, ParseError>)
    ensures
        match decode_string(old(reader)@, strict) {
            Ok((text, used)) => res matches Ok(s) && s@ == text && final(reader)@ == old(
                reader,
            )@.skip(used as int),
            Err(e) => res matches Err(r) && r == e && final(reader)@ == old(reader)@,
        },
{
    let mut rest: &'a [u8] = *reader;
    let octets = io(rest.read_var_octet_string(strict))?;
    match str_from_utf8(octets) {
        Some(text) => {
            *reader = rest;
            Ok(text.to_owned())
        },
        None => Err(ParseError::Utf8Err),
    }
}

/// The protocol entry at the cursor, which moves past it.
fn read_protocol_entry<'a>(reader: &mut &'a [u8], strict: bool) -> (res: Result<
    ProtocolData,
    ParseError,
>)
    ensures
        match decode_protocol_entry(old(reader)@, strict) {
            Ok((entry, used)) => res matches Ok(e) && e@ == entry && final(reader)@ == old(
                reader,
            )@.skip(used as int),
            Err(e) => res matches Err(r) && r == e && final(reader)@ == old(reader)@,
        },
{
    let mut rest: &'a [u8] = *reader;
    let protocol_name = read_string(&mut rest, strict)?;
    if rest.len() == 0 {
        return Err(ParseError::IoErr(OerError::UnexpectedEof));
    }
    let content_type = ContentType::from(rest[0]);
    rest = slice_subrange(rest, 1, rest.len());
    let data = io(rest.read_var_octet_string(strict))?;
    *reader = rest;
    Ok(ProtocolData { protocol_name, content_type, data: slice_to_vec(data) })
}

/// What the entries read so far and the entries still to read make
/// together.
spec fn joined(
    done: Seq<ProtocolDataView>,
    taken: nat,
    rest: Result<(Seq<ProtocolDataView>, nat), ParseError>,
) -> Result<(Seq<ProtocolDataView>, nat), ParseError> {
    match rest {
        Ok((entries, more)) => Ok((done + entries, taken + more)),
        Err(e) => Err(e),
    }
}

/// The `count` protocol entries at the start of `bytes`, and what follows
/// them.
fn read_protocol_entries<'a>(bytes: &'a [u8], count: u64, strict: bool) -> (res: Result<
    (Vec<ProtocolData>, &'a [u8]),
    ParseError,
>)
    ensures
        match decode_protocol_entries(bytes@, count as nat, strict) {
            Ok((entries, used)) => res matches Ok((v, rest)) && entries_view(v@) == entries
                && used <= bytes@.len() && rest@ == bytes@.skip(used as int),
            Err(e) => res matches Err(r) && r == e,
        },
{
    let mut protocol_data: Vec<ProtocolData> = Vec::new();
    let mut rest: &'a [u8] = bytes;
    let ghost mut taken: nat = 0;
    let mut i: u64 = 0;
    while i < count
        invariant
            i <= count,
            taken <= bytes@.len(),
            rest@ == bytes@.skip(taken as int),
            decode_protocol_entries(bytes@, count as nat, strict) == joined(
                entries_view(protocol_data@),
                taken,
                decode_protocol_entries(rest@, (count - i) as nat, strict),
            ),
        decreases count - i,
    {
        let ghost before = rest@;
        let ghost done = entries_view(protocol_data@);
        let entry = read_protocol_entry(&mut rest, strict)?;
        let ghost shown = entry@;
        let ghost used = (before.len() - rest@.len()) as nat;
        protocol_data.push(entry);
        i += 1;
        proof {
            assert(entries_view(protocol_data@) =~= done.push(shown));
            match decode_protocol_entries(rest@, (count - i) as nat, strict) {
                Ok((entries, more)) => {
                    assert(done + (seq![shown] + entries) =~= done.push(shown) + entries);
                },
                Err(_) => {},
            }
            taken = taken + used;
        }
    }
    Ok((protocol_data, rest))
}

/// The protocol data list that the bytes at the cursor are, up to their
/// end; the cursor moves there.
pub fn read_protocol_data<'a>(reader: &mut &'a [u8], strict: bool) -> (res: Result<
    Vec<ProtocolData>,
    ParseError,
>)
    ensures
        match decode_protocol_data(old(reader)@, strict) {
            Ok(entries) => res matches Ok(v) && entries_view(v@) == entries && final(reader)@.len()
                == 0,
            Err(e) => res matches Err(r) && r == e && final(reader)@ == old(reader)@,
        },
{
    let mut rest: &'a [u8] = *reader;
    let num_entries = io(rest.read_var_uint(strict))?;
    let (protocol_data, rest) = read_protocol_entries(rest, num_entries, strict)?;
    io(check_no_trailing_bytes(rest))?;
    *reader = rest;
    Ok(protocol_data)
}

/// Appends the protocol data list to `buf`.
pub fn put_protocol_data(buf: &mut Vec<u8>, protocol_data: &[ProtocolData])
    ensures
        final(buf)@ == old(buf)@ + encode_protocol_data(entries_view(protocol_data@)),
{
    buf.put_var_uint(protocol_data.len() as u64);
    let ghost start = buf@;
    let ghost all = entries_view(protocol_data@);
    let mut i: usize = 0;
    while i < protocol_data.len()
        invariant
            i <= protocol_data@.len(),
            all == entries_view(protocol_data@),
            buf@ == start + encode_protocol_entries(all.take(i as int)),
        decreases protocol_data@.len() - i,
    {
        let entry = &protocol_data[i];
        buf.put_var_octet_string(entry.protocol_name.as_str().as_bytes());
        buf.push(entry.content_type.into());
        buf.put_var_octet_string(entry.data.as_slice());
        i += 1;
        proof {
            assert(all.take(i as int).drop_last() =~= all.take(i - 1));
        }
    }
    proof {
        assert(all.take(i as int) =~= all);
    }
}

/// The request id and the contents of the packet of kind `expected` that
/// `bytes` are.
fn read_envelope<'a>(bytes: &'a [u8], expected: PacketType, strict: bool) -> (res: Result<
    (u32, &'a [u8]),
    ParseError,
>)
    ensures
        match decode_envelope(bytes@, expected.spec_code(), strict) {
            Ok((request_id, contents)) => res matches Ok((id, c)) && id == request_id && c@
                == contents,
            Err(e) => res matches Err(r) && r == e,
        },
{
    if bytes.len() == 0 {
        return Err(ParseError::IoErr(OerError::UnexpectedEof));
    }
    let packet_type = bytes[0];
    if packet_type != expected.code() {
        return Err(ParseError::InvalidPacket { found: packet_type, expected: Some(expected.code()) });
    }
    let mut reader: &'a [u8] = slice_subrange(bytes, 1, bytes.len());
    let request_id = match read_u32_be(reader) {
        Some(request_id) => request_id,
        None => {
            return Err(ParseError::IoErr(OerError::UnexpectedEof));
        },
    };
    assert(reader@.take(4) =~= bytes@.subrange(1, 5));
    reader = slice_subrange(reader, 4, reader.len());
    assert(reader@ =~= bytes@.skip(5));
    let contents = io(reader.read_var_octet_string(strict))?;
    io(check_no_trailing_bytes(reader))?;
    Ok((request_id, contents))
}

/// Appends the start of a packet to `buf`: the type byte and the request id.
fn put_header(buf: &mut Vec<u8>, kind: PacketType, request_id: u32)
    ensures
        final(buf)@ == old(buf)@ + seq![kind.spec_code()] + be_bytes(
            request_id as nat,
            4,
        ),
{
    buf.push(kind.code());
    put_u32_be(buf, request_id);
}

impl Serializable<BtpMessage> for BtpMessage {
    open spec fn decodes_to(bytes: Seq<u8>, strict: bool, outcome: Result<BtpMessage, ParseError>) -> bool {
        match decode_message(bytes, strict) {
            Ok(packet) => outcome matches Ok(p) && p@ == packet,
            Err(e) => outcome matches Err(r) && r == e,
        }
    }

    open spec fn encoded(&self) -> Seq<u8> {
        encode_message(self@)
    }

    fn from_bytes(bytes: &[u8], strict: bool) -> (res: Result<BtpMessage, ParseError>) {
        let (request_id, contents) = read_envelope(bytes, PacketType::Message, strict)?;
        let mut contents = contents;
        let protocol_data = read_protocol_data(&mut contents, strict)?;
        Ok(BtpMessage { request_id, protocol_data })
    }

    fn to_bytes(&self) -> (bytes: Vec<u8>) {
        let mut buf: Vec<u8> = Vec::new();
        put_header(&mut buf, PacketType::Message, self.request_id);
        let mut contents: Vec<u8> = Vec::new();
        put_protocol_data(&mut contents, self.protocol_data.as_slice());
        buf.put_var_octet_string(contents.as_slice());
        buf
    }
}

impl Serializable<BtpResponse> for BtpResponse {
    open spec fn decodes_to(bytes: Seq<u8>, strict: bool, outcome: Result<BtpResponse, ParseError>) -> bool {
        match decode_response(bytes, strict) {
            Ok(packet) => outcome matches Ok(p) && p@ == packet,
            Err(e) => outcome matches Err(r) && r == e,
        }
    }

    open spec fn encoded(&self) -> Seq<u8> {
        encode_response(self@)
    }

    fn from_bytes(bytes: &[u8], strict: bool) -> (res: Result<BtpResponse, ParseError>) {
        let (request_id, contents) = read_envelope(bytes, PacketType::Response, strict)?;
        let mut contents = contents;
        let protocol_data = read_protocol_data(&mut contents, strict)?;
        Ok(BtpResponse { request_id, protocol_data })
    }

    fn to_bytes(&self) -> (bytes: Vec<u8>) {
        let mut buf: Vec<u8> = Vec::new();
        put_header(&mut buf, PacketType::Response, self.request_id);
        let mut contents: Vec<u8> = Vec::new();
        put_protocol_data(&mut contents, self.protocol_data.as_slice());
        buf.put_var_octet_string(contents.as_slice());
        buf
    }
}

impl Serializable<BtpError> for BtpError {
    open spec fn decodes_to(bytes: Seq<u8>, strict: bool, outcome: Result<BtpError, ParseError>) -> bool {
        match decode_error(bytes, strict) {
            Ok(packet) => outcome matches Ok(p) && p@ == packet,
            Err(e) => outcome matches Err(r) && r == e,
        }
    }

    open spec fn encoded(&self) -> Seq<u8> {
        encode_error(self@)
    }

    fn from_bytes(bytes: &[u8], strict: bool) -> (res: Result<BtpError, ParseError>) {
        let (request_id, contents) = read_envelope(bytes, PacketType::Error, strict)?;
        if contents.len() < 3 {
            return Err(ParseError::IoErr(OerError::UnexpectedEof));
        }
        let code = slice_subrange(contents, 0, 3);
        let mut rest = slice_subrange(contents, 3, contents.len());
        let name = read_string(&mut rest, strict)?;
        let triggered_at = io(rest.read_variable_length_timestamp(strict))?;
        let data = read_string(&mut rest, strict)?;
        let protocol_data = read_protocol_data(&mut rest, strict)?;
        let code = match str_from_utf8(code) {
            Some(code) => code.to_owned(),
            None => {
                return Err(ParseError::Utf8Err);
            },
        };
        Ok(BtpError { request_id, code, name, triggered_at, data, protocol_data })
    }

    fn to_bytes(&self) -> (bytes: Vec<u8>) {
        let mut buf: Vec<u8> = Vec::new();
        put_header(&mut buf, PacketType::Error, self.request_id);
        let mut contents: Vec<u8> = Vec::new();
        contents.extend_from_slice(self.code.as_str().as_bytes());
        contents.put_var_octet_string(self.name.as_str().as_bytes());
        contents.put_variable_length_timestamp(&self.triggered_at);
        contents.put_var_octet_string(self.data.as_str().as_bytes());
        put_protocol_data(&mut contents, self.protocol_data.as_slice());
        buf.put_var_octet_string(contents.as_slice());
        buf
    }
}

impl Serializable<BtpPacket> for BtpPacket {
    open spec fn decodes_to(bytes: Seq<u8>, strict: bool, outcome: Result<BtpPacket, ParseError>) -> bool {
        match decode_packet(bytes, strict) {
            Ok(packet) => outcome matches Ok(p) && p@ == packet,
            Err(e) => outcome matches Err(r) && r == e,
        }
    }

    open spec fn encoded(&self) -> Seq<u8> {
        encode_packet(self@)
    }

    fn from_bytes(bytes: &[u8], strict: bool) -> (res: Result<BtpPacket, ParseError>) {
        if bytes.len() == 0 {
            return Err(ParseError::IoErr(OerError::UnexpectedEof));
        }
        match PacketType::from(bytes[0]) {
            Some(PacketType::Message) => Ok(BtpPacket::Message(BtpMessage::from_bytes(bytes, strict)?)),
            Some(PacketType::Response) => Ok(
                BtpPacket::Response(BtpResponse::from_bytes(bytes, strict)?),
            ),
            Some(PacketType::Error) => Ok(BtpPacket::Error(BtpError::from_bytes(bytes, strict)?)),
            None => Err(ParseError::InvalidPacket { found: bytes[0], expected: None }),
        }
    }

    fn to_bytes(&self) -> (bytes: Vec<u8>) {
        match self {
            BtpPacket::Message(packet) => packet.to_bytes(),
            BtpPacket::Response(packet) => packet.to_bytes(),
            BtpPacket::Error(packet) => packet.to_bytes(),
        }
    }
}

} // verus!
