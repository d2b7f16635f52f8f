//! The variable-length primitives: lengths, octet strings and unsigned
//! integers.
//!
//! A length below 128 is one byte. A longer one is the byte `0x80 | n`
//! followed by the length in `n` big-endian bytes, `n` from 1 to 8. Writing
//! always uses the fewest bytes. Reading takes a flag: when `strict` is set,
//! only the form that writing produces is accepted.

use crate::bigendian::{be_bytes, be_value, lemma_pow256_values, pow256};
use crate::error::OerError;
use vstd::prelude::*;

verus! {


/// The fewest bytes that hold `value` without a leading zero byte; one byte
/// for zero.
pub open spec fn var_uint_size(value: nat) -> nat {
    if value < 0x100 {
        1
    } else if value < 0x1_0000 {
        2
    } else if value < 0x100_0000 {
        3
    } else if value < 0x1_0000_0000 {
        4
    } else if value < 0x100_0000_0000 {
        5
    } else if value < 0x1_0000_0000_0000 {
        6
    } else if value < 0x100_0000_0000_0000 {
        7
    } else {
        8
    }
}

/// The size of an encoded octet string of `length` content bytes.
pub open spec fn var_octet_string_size(length: nat) -> nat {
    if length < 128 {
        1 + length
    } else {
        1 + var_uint_size(length) + length
    }
}

/// The bytes that announce `length`.
pub open spec fn encode_length(length: nat) -> Seq<u8> {
    if length < 128 {
        seq![length as u8]
    } else {
        seq![(0x80 + var_uint_size(length)) as u8] + be_bytes(length, var_uint_size(length))
    }
}

/// An octet string on the wire: its length, then its content.
pub open spec fn encode_var_octet_string(content: Seq<u8>) -> Seq<u8> {
    encode_length(content.len()) + content
}

/// An unsigned integer on the wire: an octet string of its big-endian
/// bytes, as few as hold it.
pub open spec fn encode_var_uint(value: nat) -> Seq<u8> {
    encode_var_octet_string(be_bytes(value, var_uint_size(value)))
}

/// What the start of `bytes` announces: a length, and the number of bytes
/// that announce it.
pub open spec fn decode_length(bytes: Seq<u8>, strict: bool) -> Result<(nat, nat), OerError> {
    if bytes.len() == 0 {
        Err(OerError::UnexpectedEof)
    } else if bytes[0] < 0x80 {
        Ok((bytes[0] as nat, 1))
    } else {
        let n = (bytes[0] - 0x80) as nat;
        if n > 8 {
            Err(OerError::LengthPrefixTooLarge)
        } else if n == 0 {
            Err(OerError::IndefiniteLength)
        } else if bytes.len() < 1 + n {
            Err(OerError::UnexpectedEof)
        } else {
            let length = be_value(bytes.subrange(1, 1 + n as int));
            if strict && var_uint_size(length) != n {
                Err(OerError::LeadingZeros)
            } else if n == 1 && length < 128 {
                Err(OerError::UnnecessaryMultibyteLength)
            } else if length > usize::MAX {
                Err(OerError::LengthOverflow)
            } else {
                Ok((length, 1 + n))
            }
        }
    }
}

/// The octet string at the start of `bytes`: its content, and the number of
/// bytes that it takes with its length.
pub open spec fn decode_var_octet_string(bytes: Seq<u8>, strict: bool) -> Result<
    (Seq<u8>, nat),
    OerError,
> {
    match decode_length(bytes, strict) {
        Err(e) => Err(e),
        Ok((length, prefix)) => if bytes.len() < prefix + length {
            Err(OerError::UnexpectedEof)
        } else {
            Ok((bytes.subrange(prefix as int, (prefix + length) as int), prefix + length))
        },
    }
}

/// The unsigned integer at the start of `bytes`: its value, and the number
/// of bytes that it takes with its length.
pub open spec fn decode_var_uint(bytes: Seq<u8>, strict: bool) -> Result<(nat, nat), OerError> {
    match decode_length(bytes, strict) {
        Err(e) => Err(e),
        Ok((size, prefix)) => if size == 0 {
            Err(OerError::ZeroLengthVarUInt)
        } else if size > 8 {
            Err(OerError::VarUIntTooLarge)
        } else if bytes.len() < prefix + size {
            Err(OerError::UnexpectedEof)
        } else {
            let value = be_value(bytes.subrange(prefix as int, (prefix + size) as int));
            if strict && var_uint_size(value) != size {
                Err(OerError::LeadingZeros)
            } else {
                Ok((value, prefix + size))
            }
        },
    }
}

/// `var_uint_size` is the least width, from one byte up, that holds the
/// value.
pub proof fn lemma_var_uint_size_is_least(value: nat)
    requires
        value <= u64::MAX,
    ensures
        1 <= var_uint_size(value) <= 8,
        value < pow256(var_uint_size(value)),
        var_uint_size(value) > 1 ==> value >= pow256((var_uint_size(value) - 1) as nat),
{
    lemma_pow256_values();
}

/// Returns the minimum number of bytes needed to encode the `value` without
/// leading zeroes in big-endian representation.
pub fn predict_var_uint_size(value: u64) -> (size: u8)
    ensures
        size == var_uint_size(value as nat),
{
    if value < 0x100 {
        1
    } else if value < 0x1_0000 {
        2
    } else if value < 0x100_0000 {
        3
    } else if value < 0x1_0000_0000 {
        4
    } else if value < 0x100_0000_0000 {
        5
    } else if value < 0x1_0000_0000_0000 {
        6
    } else if value < 0x100_0000_0000_0000 {
        7
    } else {
        8
    }
}

/// Returns the size (in bytes) of the buffer that encodes a VarOctetString of
/// `length` bytes.
pub fn predict_var_octet_string(length: usize) -> (size: usize)
    requires
        var_octet_string_size(length as nat) <= usize::MAX,
    ensures
        size == var_octet_string_size(length as nat),
{
    if length < 128 {
        1 + length
    } else {
        let length_of_length = predict_var_uint_size(length as u64) as usize;
        1 + length_of_length + length
    }
}

/// In strict mode an integer must be written in as few bytes as hold it.
pub fn check_no_leading_zeroes(size_on_wire: usize, uint: u64, strict: bool) -> (res: Result<
    (),
    OerError,
>)
    ensures
        res == if strict && size_on_wire != var_uint_size(uint as nat) {
            Err::<(), OerError>(OerError::LeadingZeros)
        } else {
            Ok(())
        },
{
    if strict && size_on_wire != predict_var_uint_size(uint) as usize {
        return Err(OerError::LeadingZeros);
    }
    Ok(())
}

} // verus!
