//! The three packets of the protocol and what they are on the wire.
//!
//! A packet is a type byte, a request id of four bytes, and one octet
//! string that holds everything else. Nothing may follow that octet string,
//! and nothing may follow the last entry of the protocol data inside it.

use crate::bigendian::{be_bytes, be_value};
use crate::error::{OerError, ParseError};
use crate::oer::{decode_var_octet_string, decode_var_uint, encode_var_octet_string, encode_var_uint};
use crate::timestamp::{decode_timestamp, timestamp_text, TimestampView, VariableLengthTimestamp};
use vstd::prelude::*;
use vstd::utf8::{decode_utf8, encode_utf8, valid_utf8};

verus! {

/// The type byte of a message.
pub const MESSAGE: u8 = 6;

/// The type byte of a response.
pub const RESPONSE: u8 = 1;

/// The type byte of an error.
pub const ERROR: u8 = 2;

/// The kind of a packet, as its first byte tells it.
#[derive(Clone, Copy, Debug, PartialEq, Eq, Structural)]
pub enum PacketType {
    Message,
    Response,
    Error,
}

impl PacketType {
    /// The kind that `type_int` stands for, where it stands for one.
    pub open spec fn spec_from(type_int: u8) -> Option<PacketType> {
        if type_int == MESSAGE {
            Some(PacketType::Message)
        } else if type_int == RESPONSE {
            Some(PacketType::Response)
        } else if type_int == ERROR {
            Some(PacketType::Error)
        } else {
            None
        }
    }

    /// The byte that stands for this kind.
    pub open spec fn spec_code(self) -> u8 {
        match self {
            PacketType::Message => MESSAGE,
            PacketType::Response => RESPONSE,
            PacketType::Error => ERROR,
        }
    }

    /// The kind that `type_int` stands for, where it stands for one.
    #[verifier::when_used_as_spec(spec_from)]
    pub fn from(type_int: u8) -> (kind: Option<PacketType>)
        ensures
            kind == Self::spec_from(type_int),
    {
        match type_int {
            6 => Some(PacketType::Message),
            1 => Some(PacketType::Response),
            2 => Some(PacketType::Error),
            _ => None,
        }
    }

    /// The byte that stands for this kind.
    #[verifier::when_used_as_spec(spec_code)]
    pub fn code(self) -> (code: u8)
        ensures
            code == self.spec_code(),
    {
        match self {
            PacketType::Message => MESSAGE,
            PacketType::Response => RESPONSE,
            PacketType::Error => ERROR,
        }
    }
}

/// How the data of a protocol entry is to be read.
#[derive(Clone, Copy, Debug, PartialEq, Eq, Structural)]
pub enum ContentType {
    ApplicationOctetStream,
    TextPlainUtf8,
    Unknown(u8),
}

impl ContentType {
    /// The byte that stands for this content type.
    pub open spec fn spec_code(self) -> u8 {
        match self {
            ContentType::ApplicationOctetStream => 0,
            ContentType::TextPlainUtf8 => 1,
            ContentType::Unknown(x) => x,
        }
    }

    /// The content type that `type_int` stands for.
    pub open spec fn spec_from(type_int: u8) -> ContentType {
        if type_int == 0 {
            ContentType::ApplicationOctetStream
        } else if type_int == 1 {
            ContentType::TextPlainUtf8
        } else {
            ContentType::Unknown(type_int)
        }
    }

    /// Whether this is the content type that its own byte stands for:
    /// `Unknown` holds neither 0 nor 1.
    pub open spec fn is_canonical(self) -> bool {
        Self::spec_from(self.spec_code()) == self
    }
}

impl From<u8> for ContentType {
    fn from(type_int: u8) -> (content_type: Self) {
        match type_int {
            0 => ContentType::ApplicationOctetStream,
            1 => ContentType::TextPlainUtf8,
            x => ContentType::Unknown(x),
        }
    }
}

impl vstd::std_specs::convert::FromSpecImpl<u8> for ContentType {
    open spec fn obeys_from_spec() -> bool {
        true
    }

    open spec fn from_spec(type_int: u8) -> Self {
        ContentType::spec_from(type_int)
    }
}

impl From<ContentType> for u8 {
    fn from(ct: ContentType) -> (code: Self) {
        match ct {
            ContentType::ApplicationOctetStream => 0,
            ContentType::TextPlainUtf8 => 1,
            ContentType::Unknown(x) => x,
        }
    }
}

impl vstd::std_specs::convert::FromSpecImpl<ContentType> for u8 {
    open spec fn obeys_from_spec() -> bool {
        true
    }

    open spec fn from_spec(ct: ContentType) -> Self {
        ct.spec_code()
    }
}

/// One entry of the protocol data: a named, typed payload.
#[derive(Debug, PartialEq, Clone)]
pub struct ProtocolData {
    pub protocol_name: String,
    pub content_type: ContentType,
    pub data: Vec<u8>,
}

/// A protocol entry as plain values.
pub struct ProtocolDataView {
    pub protocol_name: Seq<char>,
    pub content_type: ContentType,
    pub data: Seq<u8>,
}

impl View for ProtocolData {
    type V = ProtocolDataView;

    open spec fn view(&self) -> ProtocolDataView {
        ProtocolDataView {
            protocol_name: self.protocol_name@,
            content_type: self.content_type,
            data: self.data@,
        }
    }
}

/// The entries of a vector as plain values.
pub open spec fn entries_view(entries: Seq<ProtocolData>) -> Seq<ProtocolDataView> {
    entries.map_values(|entry: ProtocolData| entry@)
}

/// A request.
#[derive(Debug, PartialEq, Clone)]
pub struct BtpMessage {
    pub request_id: u32,
    pub protocol_data: Vec<ProtocolData>,
}

/// The answer to a request.
#[derive(Debug, PartialEq, Clone)]
pub struct BtpResponse {
    pub request_id: u32,
    pub protocol_data: Vec<ProtocolData>,
}

/// The refusal of a request.
#[derive(Debug, PartialEq, Clone)]
pub struct BtpError {
    pub request_id: u32,
    pub code: String,
    pub name: String,
    pub triggered_at: VariableLengthTimestamp,
    pub data: String,
    pub protocol_data: Vec<ProtocolData>,
}

/// Any of the three packets.
#[derive(Debug, PartialEq, Clone)]
pub enum BtpPacket {
    Message(BtpMessage),
    Response(BtpResponse),
    Error(BtpError),
}

/// A message or a response as plain values.
pub struct MessageView {
    pub request_id: u32,
    pub protocol_data: Seq<ProtocolDataView>,
}

/// An error packet as plain values.
pub struct ErrorView {
    pub request_id: u32,
    pub code: Seq<char>,
    pub name: Seq<char>,
    pub triggered_at: TimestampView,
    pub data: Seq<char>,
    pub protocol_data: Seq<ProtocolDataView>,
}

/// A packet as plain values.
pub enum PacketView {
    Message(MessageView),
    Response(MessageView),
    Error(ErrorView),
}

impl View for BtpMessage {
    type V = MessageView;

    open spec fn view(&self) -> MessageView {
        MessageView {
            request_id: self.request_id,
            protocol_data: entries_view(self.protocol_data@),
        }
    }
}

impl View for BtpResponse {
    type V = MessageView;

    open spec fn view(&self) -> MessageView {
        MessageView {
            request_id: self.request_id,
            protocol_data: entries_view(self.protocol_data@),
        }
    }
}

impl View for BtpError {
    type V = ErrorView;

    open spec fn view(&self) -> ErrorView {
        ErrorView {
            request_id: self.request_id,
            code: self.code@,
            name: self.name@,
            triggered_at: self.triggered_at@,
            data: self.data@,
            protocol_data: entries_view(self.protocol_data@),
        }
    }
}

impl View for BtpPacket {
    type V = PacketView;

    open spec fn view(&self) -> PacketView {
        match self {
            BtpPacket::Message(packet) => PacketView::Message(packet@),
            BtpPacket::Response(packet) => PacketView::Response(packet@),
            BtpPacket::Error(packet) => PacketView::Error(packet@),
        }
    }
}

/// A string on the wire: the octet string of its UTF-8 bytes.
pub open spec fn encode_string(text: Seq<char>) -> Seq<u8> {
    encode_var_octet_string(encode_utf8(text))
}

/// A protocol entry on the wire: name, content type, data.
pub open spec fn encode_protocol_entry(entry: ProtocolDataView) -> Seq<u8> {
    encode_string(entry.protocol_name) + seq![entry.content_type.spec_code()]
        + encode_var_octet_string(entry.data)
}

/// The entries of a protocol data list on the wire, one after the other.
pub open spec fn encode_protocol_entries(entries: Seq<ProtocolDataView>) -> Seq<u8>
    decreases entries.len(),
{
    if entries.len() == 0 {
        Seq::empty()
    } else {
        encode_protocol_entries(entries.drop_last()) + encode_protocol_entry(entries.last())
    }
}

/// A protocol data list on the wire: the number of its entries, then the
/// entries.
pub open spec fn encode_protocol_data(entries: Seq<ProtocolDataView>) -> Seq<u8> {
    encode_var_uint(entries.len()) + encode_protocol_entries(entries)
}

/// A packet on the wire: its type byte, its request id, and the octet string
/// of its contents.
pub open spec fn encode_envelope(type_int: u8, request_id: u32, contents: Seq<u8>) -> Seq<u8> {
    seq![type_int] + be_bytes(request_id as nat, 4) + encode_var_octet_string(contents)
}

/// The contents of a message or a response.
pub open spec fn encode_message_contents(packet: MessageView) -> Seq<u8> {
    encode_protocol_data(packet.protocol_data)
}

/// The contents of an error: the code as it is, the name, the time, the
/// data, and the protocol data.
pub open spec fn encode_error_contents(packet: ErrorView) -> Seq<u8> {
    encode_utf8(packet.code) + encode_string(packet.name) + encode_var_octet_string(
        timestamp_text(packet.triggered_at),
    ) + encode_string(packet.data) + encode_protocol_data(packet.protocol_data)
}

/// A message on the wire.
pub open spec fn encode_message(packet: MessageView) -> Seq<u8> {
    encode_envelope(MESSAGE, packet.request_id, encode_message_contents(packet))
}

/// A response on the wire.
pub open spec fn encode_response(packet: MessageView) -> Seq<u8> {
    encode_envelope(RESPONSE, packet.request_id, encode_message_contents(packet))
}

/// An error on the wire.
pub open spec fn encode_error(packet: ErrorView) -> Seq<u8> {
    encode_envelope(ERROR, packet.request_id, encode_error_contents(packet))
}

/// A packet on the wire.
pub open spec fn encode_packet(packet: PacketView) -> Seq<u8> {
    match packet {
        PacketView::Message(m) => encode_message(m),
        PacketView::Response(m) => encode_response(m),
        PacketView::Error(e) => encode_error(e),
    }
}

/// The string at the start of `bytes`, and the number of bytes that it takes
/// with its length.
pub open spec fn decode_string(bytes: Seq<u8>, strict: bool) -> Result<
    (Seq<char>, nat),
    ParseError,
> {
    match decode_var_octet_string(bytes, strict) {
        Err(e) => Err(ParseError::IoErr(e)),
        Ok((octets, used)) => if valid_utf8(octets) {
            Ok((decode_utf8(octets), used))
        } else {
            Err(ParseError::Utf8Err)
        },
    }
}

/// The protocol entry at the start of `bytes`, and the number of bytes that
/// it takes.
pub open spec fn decode_protocol_entry(bytes: Seq<u8>, strict: bool) -> Result<
    (ProtocolDataView, nat),
    ParseError,
> {
    match decode_string(bytes, strict) {
        Err(e) => Err(e),
        Ok((protocol_name, used)) => if bytes.len() <= used {
            Err(ParseError::IoErr(OerError::UnexpectedEof))
        } else {
            match decode_var_octet_string(bytes.skip(used as int).skip(1), strict) {
                Err(e) => Err(ParseError::IoErr(e)),
                Ok((data, more)) => Ok(
                    (
                        ProtocolDataView {
                            protocol_name,
                            content_type: ContentType::spec_from(bytes[used as int]),
                            data,
                        },
                        used + 1 + more,
                    ),
                ),
            }
        },
    }
}

/// The `count` protocol entries at the start of `bytes`, and the number of
/// bytes that they take.
pub open spec fn decode_protocol_entries(bytes: Seq<u8>, count: nat, strict: bool) -> Result<
    (Seq<ProtocolDataView>, nat),
    ParseError,
>
    decreases count,
{
    if count == 0 {
        Ok((Seq::empty(), 0))
    } else {
        match decode_protocol_entry(bytes, strict) {
            Err(e) => Err(e),
            Ok((entry, used)) => match decode_protocol_entries(
                bytes.skip(used as int),
                (count - 1) as nat,
                strict,
            ) {
                Err(e) => Err(e),
                Ok((entries, more)) => Ok((seq![entry] + entries, used + more)),
            },
        }
    }
}

/// The protocol data list that `bytes` are, from their first to their last.
pub open spec fn decode_protocol_data(bytes: Seq<u8>, strict: bool) -> Result<
    Seq<ProtocolDataView>,
    ParseError,
> {
    match decode_var_uint(bytes, strict) {
        Err(e) => Err(ParseError::IoErr(e)),
        Ok((count, used)) => match decode_protocol_entries(bytes.skip(used as int), count, strict) {
            Err(e) => Err(e),
            Ok((entries, more)) => if used + more == bytes.len() {
                Ok(entries)
            } else {
                Err(ParseError::IoErr(OerError::TrailingBytes))
            },
        },
    }
}

/// The request id and the contents of the packet of type `expected` that
/// `bytes` are.
pub open spec fn decode_envelope(bytes: Seq<u8>, expected: u8, strict: bool) -> Result<
    (u32, Seq<u8>),
    ParseError,
> {
    if bytes.len() == 0 {
        Err(ParseError::IoErr(OerError::UnexpectedEof))
    } else if bytes[0] != expected {
        Err(ParseError::InvalidPacket { found: bytes[0], expected: Some(expected) })
    } else if bytes.len() < 5 {
        Err(ParseError::IoErr(OerError::UnexpectedEof))
    } else {
        match decode_var_octet_string(bytes.skip(5), strict) {
            Err(e) => Err(ParseError::IoErr(e)),
            Ok((contents, used)) => if 5 + used == bytes.len() {
                Ok((be_value(bytes.subrange(1, 5)) as u32, contents))
            } else {
                Err(ParseError::IoErr(OerError::TrailingBytes))
            },
        }
    }
}

/// The message or response of type `expected` that `bytes` are.
pub open spec fn decode_message_of(bytes: Seq<u8>, expected: u8, strict: bool) -> Result<
    MessageView,
    ParseError,
> {
    match decode_envelope(bytes, expected, strict) {
        Err(e) => Err(e),
        Ok((request_id, contents)) => match decode_protocol_data(contents, strict) {
            Err(e) => Err(e),
            Ok(protocol_data) => Ok(MessageView { request_id, protocol_data }),
        },
    }
}

/// The message that `bytes` are.
pub open spec fn decode_message(bytes: Seq<u8>, strict: bool) -> Result<MessageView, ParseError> {
    decode_message_of(bytes, MESSAGE, strict)
}

/// The response that `bytes` are.
pub open spec fn decode_response(bytes: Seq<u8>, strict: bool) -> Result<
    MessageView,
    ParseError,
> {
    decode_message_of(bytes, RESPONSE, strict)
}

/// The error that the contents `bytes` and the request id make: three bytes
/// of code, then the name, the time, the data and the protocol data, each
/// where the one before it ends.
pub open spec fn decode_error_contents(request_id: u32, bytes: Seq<u8>, strict: bool) -> Result<
    ErrorView,
    ParseError,
> {
    if bytes.len() < 3 {
        Err(ParseError::IoErr(OerError::UnexpectedEof))
    } else {
        let after_code = bytes.skip(3);
        match decode_string(after_code, strict) {
            Err(e) => Err(e),
            Ok((name, used_name)) => {
                let after_name = after_code.skip(used_name as int);
                match decode_timestamp(after_name, strict) {
                    Err(e) => Err(ParseError::IoErr(e)),
                    Ok((triggered_at, used_time)) => {
                        let after_time = after_name.skip(used_time as int);
                        match decode_string(after_time, strict) {
                            Err(e) => Err(e),
                            Ok((data, used_data)) => {
                                let after_data = after_time.skip(used_data as int);
                                match decode_protocol_data(after_data, strict) {
                                    Err(e) => Err(e),
                                    Ok(protocol_data) => if valid_utf8(bytes.take(3)) {
                                        Ok(
                                            ErrorView {
                                                request_id,
                                                code: decode_utf8(bytes.take(3)),
                                                name,
                                                triggered_at,
                                                data,
                                                protocol_data,
                                            },
                                        )
                                    } else {
                                        Err(ParseError::Utf8Err)
                                    },
                                }
                            },
                        }
                    },
                }
            },
        }
    }
}

/// The error that `bytes` are.
pub open spec fn decode_error(bytes: Seq<u8>, strict: bool) -> Result<ErrorView, ParseError> {
    match decode_envelope(bytes, ERROR, strict) {
        Err(e) => Err(e),
        Ok((request_id, contents)) => decode_error_contents(request_id, contents, strict),
    }
}

/// The packet that `bytes` are.
pub open spec fn decode_packet(bytes: Seq<u8>, strict: bool) -> Result<PacketView, ParseError> {
    if bytes.len() == 0 {
        Err(ParseError::IoErr(OerError::UnexpectedEof))
    } else if bytes[0] == MESSAGE {
        match decode_message(bytes, strict) {
            Ok(m) => Ok(PacketView::Message(m)),
            Err(e) => Err(e),
        }
    } else if bytes[0] == RESPONSE {
        match decode_response(bytes, strict) {
            Ok(m) => Ok(PacketView::Response(m)),
            Err(e) => Err(e),
        }
    } else if bytes[0] == ERROR {
        match decode_error(bytes, strict) {
            Ok(e) => Ok(PacketView::Error(e)),
            Err(e) => Err(e),
        }
    } else {
        Err(ParseError::InvalidPacket { found: bytes[0], expected: None })
    }
}

} // verus!
