//! Binary wire encoding of the Bilateral Transfer Protocol: the canonical
//! variable-length primitives, the variable-precision timestamp, and the three
//! packet shapes built from them.

pub mod bigendian;
pub mod buffer;
pub mod calendar;
pub mod error;
pub mod laws_oer;
pub mod laws_packet;
pub mod laws_rejection;
pub mod laws_timestamp;
pub mod oer;
pub mod packet;
pub mod reader;
pub mod serialize;
pub mod text;
pub mod timestamp;
pub mod writer;

pub use buffer::extract_var_octet_string;
pub use calendar::UtcDateTime;
pub use error::{ErrorKind, OerError, ParseError};
pub use oer::{check_no_leading_zeroes, predict_var_octet_string, predict_var_uint_size};
pub use packet::{
    BtpError, BtpMessage, BtpPacket, BtpResponse, ContentType, PacketType, ProtocolData,
};
pub use reader::BufOerExt;
pub use serialize::{check_no_trailing_bytes, put_protocol_data, read_protocol_data, Serializable};
pub use timestamp::{SmallVariableLengthField, VariableLengthTimestamp};
pub use writer::MutBufOerExt;
