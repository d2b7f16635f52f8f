//! Error values of the codec.
//!
//! Decoding never panics: every malformed input is answered with one of the
//! values below. The class of an error (`ErrorKind`) is what callers branch
//! on; the variant says which rule of the encoding was broken.

use vstd::prelude::*;

verus! {

/// The five classes of decoding failure.
#[derive(Clone, Copy, Debug, PartialEq, Eq, Structural)]
pub enum ErrorKind {
    /// The buffer ends before a declared field does.
    UnexpectedEof,
    /// The leading type byte is unknown, or not the one that was asked for.
    InvalidPacket,
    /// A length or an integer is not encoded as the rules demand, or bytes
    /// follow the end of a declared region.
    InvalidData,
    /// A string field is not valid UTF-8.
    Utf8,
    /// A timestamp does not follow the timestamp grammar.
    Timestamp,
}

/// What can go wrong while reading a primitive.
#[derive(Clone, Copy, Debug, PartialEq, Eq, Structural)]
pub enum OerError {
    /// Fewer bytes remain than the field needs.
    UnexpectedEof,
    /// The length of the length is more than eight bytes.
    LengthPrefixTooLarge,
    /// The length byte is `0x80`: a length of unknown size.
    IndefiniteLength,
    /// A length below 128 written in the long form with one length byte.
    UnnecessaryMultibyteLength,
    /// A length or an integer that starts with a zero byte it does not need.
    LeadingZeros,
    /// The declared length does not fit the platform's size type.
    LengthOverflow,
    /// A variable-length integer without any payload byte.
    ZeroLengthVarUInt,
    /// A variable-length integer with more than eight payload bytes.
    VarUIntTooLarge,
    /// Bytes follow the end of a declared region.
    TrailingBytes,
    /// The octets of a timestamp are not valid UTF-8.
    InvalidUtf8,
    /// The octets of a timestamp do not follow the timestamp grammar.
    InvalidTimestamp,
}

impl OerError {
    /// The class of this error.
    pub open spec fn spec_kind(&self) -> ErrorKind {
        match self {
            OerError::UnexpectedEof => ErrorKind::UnexpectedEof,
            OerError::InvalidUtf8 => ErrorKind::Utf8,
            OerError::InvalidTimestamp => ErrorKind::Timestamp,
            _ => ErrorKind::InvalidData,
        }
    }

    /// The text that describes this error.
    pub open spec fn message(&self) -> &'static str {
        match self {
            OerError::UnexpectedEof => "buffer too small",
            OerError::LengthPrefixTooLarge => "length prefix too large",
            OerError::IndefiniteLength => "indefinite lengths are not allowed",
            OerError::UnnecessaryMultibyteLength => "variable length prefix with unnecessary multibyte length",
            OerError::LeadingZeros => "variable length prefix with leading zeros",
            OerError::LengthOverflow => "var octet length overflow",
            OerError::ZeroLengthVarUInt => "zero-length VarUInt",
            OerError::VarUIntTooLarge => "VarUInt too large",
            OerError::TrailingBytes => "extra trailing bytes",
            OerError::InvalidUtf8 => "timestamp octets are not valid UTF-8",
            OerError::InvalidTimestamp => "timestamp does not match YYYYMMDDHHMMSS[.fff]Z",
        }
    }

    /// The class of this error.
    #[verifier::when_used_as_spec(spec_kind)]
    pub fn kind(&self) -> (kind: ErrorKind)
        ensures
            kind == self.spec_kind(),
    {
        match self {
            OerError::UnexpectedEof => ErrorKind::UnexpectedEof,
            OerError::InvalidUtf8 => ErrorKind::Utf8,
            OerError::InvalidTimestamp => ErrorKind::Timestamp,
            _ => ErrorKind::InvalidData,
        }
    }

    /// The description of this error, as an owned string.
    pub fn to_string(&self) -> (text: String)
        ensures
            text@ == self.message()@,
    {
        let text: &'static str = match self {
            OerError::UnexpectedEof => "buffer too small",
            OerError::LengthPrefixTooLarge => "length prefix too large",
            OerError::IndefiniteLength => "indefinite lengths are not allowed",
            OerError::UnnecessaryMultibyteLength => "variable length prefix with unnecessary multibyte length",
            OerError::LeadingZeros => "variable length prefix with leading zeros",
            OerError::LengthOverflow => "var octet length overflow",
            OerError::ZeroLengthVarUInt => "zero-length VarUInt",
            OerError::VarUIntTooLarge => "VarUInt too large",
            OerError::TrailingBytes => "extra trailing bytes",
            OerError::InvalidUtf8 => "timestamp octets are not valid UTF-8",
            OerError::InvalidTimestamp => "timestamp does not match YYYYMMDDHHMMSS[.fff]Z",
        };
        text.to_owned()
    }
}

/// What can go wrong while decoding a packet.
#[derive(Clone, Copy, Debug, PartialEq, Eq, Structural)]
pub enum ParseError {
    /// A primitive could not be read.
    IoErr(OerError),
    /// A string field is not valid UTF-8.
    Utf8Err,
    /// The type byte `found` is not a packet type at all (`expected` is
    /// `None`), or not the type `expected` that the caller asked for.
    InvalidPacket { found: u8, expected: Option<u8> },
}

impl ParseError {
    /// The class of this error.
    pub open spec fn spec_kind(&self) -> ErrorKind {
        match self {
            ParseError::IoErr(e) => e.spec_kind(),
            ParseError::Utf8Err => ErrorKind::Utf8,
            ParseError::InvalidPacket { .. } => ErrorKind::InvalidPacket,
        }
    }

    /// The class of this error.
    #[verifier::when_used_as_spec(spec_kind)]
    pub fn kind(&self) -> (kind: ErrorKind)
        ensures
            kind == self.spec_kind(),
    {
        match self {
            ParseError::IoErr(e) => e.kind(),
            ParseError::Utf8Err => ErrorKind::Utf8,
            ParseError::InvalidPacket { .. } => ErrorKind::InvalidPacket,
        }
    }
}

} // verus!
