//! Reading the primitives from a byte slice that serves as its own cursor.
//!
//! A read that succeeds moves the slice past what it read. A read that fails
//! leaves the slice where it was.

use crate::bigendian::{lemma_be_value_bound, lemma_pow256_values, read_uint_be};
use crate::error::OerError;
use crate::oer::{
    check_no_leading_zeroes, decode_length, decode_var_octet_string, decode_var_uint,
};
use crate::text::str_from_utf8;
use crate::timestamp::{decode_timestamp, VariableLengthTimestamp};
use vstd::prelude::*;
use vstd::slice::slice_subrange;

verus! {

const HIGH_BIT: u8 = 0x80;

const LOWER_SEVEN_BITS: u8 = 0x7f;

/// The first byte of a length: whether it opens the long form, and how many
/// length bytes it then announces.
proof fn lemma_length_byte(b: u8)
    ensures
        (b & HIGH_BIT != 0) == (b >= 0x80),
        b >= 0x80 ==> (b & LOWER_SEVEN_BITS) == b - 0x80,
{
    assert((b & 0x80 != 0) == (b >= 0x80)) by (bit_vector);
    assert(b >= 0x80 ==> (b & 0x7f) == b - 0x80) by (bit_vector);
}

/// Reading the primitives at a cursor. `strict` says whether only the
/// shortest form of a length is taken. A read that fails leaves the cursor
/// where it was.
pub trait BufOerExt<'a> {
    /// The bytes from the cursor on.
    spec fn remaining(&self) -> Seq<u8>;

    /// The content of the octet string at the cursor, which stays in place.
    fn peek_var_octet_string(&self, strict: bool) -> (res: Result<&'a [u8], OerError>)
        ensures
            match decode_var_octet_string(self.remaining(), strict) {
                Ok((content, _)) => res matches Ok(s) && s@ == content,
                Err(e) => res matches Err(r) && r == e,
            },
    ;

    /// The content of the octet string at the cursor, which moves past it.
    fn read_var_octet_string(&mut self, strict: bool) -> (res: Result<&'a [u8], OerError>)
        ensures
            match decode_var_octet_string(old(self).remaining(), strict) {
                Ok((content, used)) => res matches Ok(s) && s@ == content && final(self).remaining() == old(self).remaining().skip(used as int),
                Err(e) => res matches Err(r) && r == e && final(self).remaining() == old(self).remaining(),
            },
    ;

    /// Moves the cursor `discard_bytes` bytes on.
    fn skip(&mut self, discard_bytes: usize) -> (res: Result<(), OerError>)
        ensures
            res == if old(self).remaining().len() < discard_bytes {
                Err::<(), OerError>(OerError::UnexpectedEof)
            } else {
                Ok(())
            },
            final(self).remaining() == if old(self).remaining().len() < discard_bytes {
                old(self).remaining()
            } else {
                old(self).remaining().skip(discard_bytes as int)
            },
    ;

    /// Moves the cursor past the octet string at it.
    fn skip_var_octet_string(&mut self, strict: bool) -> (res: Result<(), OerError>)
        ensures
            match decode_var_octet_string(old(self).remaining(), strict) {
                Ok((_, used)) => res is Ok && final(self).remaining() == old(self).remaining().skip(used as int),
                Err(e) => res matches Err(r) && r == e && final(self).remaining() == old(self).remaining(),
            },
    ;

    /// The length that the bytes at the cursor announce; the cursor moves
    /// past them.
    fn read_var_octet_string_length(&mut self, strict: bool) -> (res: Result<usize, OerError>)
        ensures
            match decode_length(old(self).remaining(), strict) {
                Ok((length, used)) => res matches Ok(n) && n == length && final(self).remaining() == old(self).remaining().skip(used as int),
                Err(e) => res matches Err(r) && r == e && final(self).remaining() == old(self).remaining(),
            },
    ;

    /// The unsigned integer at the cursor, which moves past it.
    fn read_var_uint(&mut self, strict: bool) -> (res: Result<u64, OerError>)
        ensures
            match decode_var_uint(old(self).remaining(), strict) {
                Ok((value, used)) => res matches Ok(n) && n == value && final(self).remaining()
                    == old(self).remaining().skip(used as int),
                Err(e) => res matches Err(r) && r == e && final(self).remaining() == old(self).remaining(),
            },
    ;

    /// The timestamp at the cursor, which moves past it.
    fn read_variable_length_timestamp(&mut self, strict: bool) -> (res: Result<
        VariableLengthTimestamp,
        OerError,
    >)
        ensures
            match decode_timestamp(old(self).remaining(), strict) {
                Ok((timestamp, used)) => res matches Ok(t) && t@ == timestamp && final(self).remaining() == old(self).remaining().skip(used as int),
                Err(e) => res matches Err(r) && r == e && final(self).remaining() == old(self).remaining(),
            },
    ;
}

impl<'a> BufOerExt<'a> for &'a [u8] {
    open spec fn remaining(&self) -> Seq<u8> {
        self@
    }

    fn peek_var_octet_string(&self, strict: bool) -> (res: Result<&'a [u8], OerError>) {
        let mut peek: &'a [u8] = *self;
        let actual_length = peek.read_var_octet_string_length(strict)?;
        let offset = self.len() - peek.len();
        if peek.len() < actual_length {
            Err(OerError::UnexpectedEof)
        } else {
            Ok(slice_subrange(*self, offset, offset + actual_length))
        }
    }

    fn read_var_octet_string(&mut self, strict: bool) -> (res: Result<&'a [u8], OerError>) {
        let mut rest: &'a [u8] = *self;
        let actual_length = rest.read_var_octet_string_length(strict)?;
        if rest.len() < actual_length {
            Err(OerError::UnexpectedEof)
        } else {
            let to_return = slice_subrange(rest, 0, actual_length);
            *self = slice_subrange(rest, actual_length, rest.len());
            Ok(to_return)
        }
    }

    fn skip(&mut self, discard_bytes: usize) -> (res: Result<(), OerError>) {
        if self.len() < discard_bytes {
            Err(OerError::UnexpectedEof)
        } else {
            *self = slice_subrange(*self, discard_bytes, self.len());
            Ok(())
        }
    }

    fn skip_var_octet_string(&mut self, strict: bool) -> (res: Result<(), OerError>) {
        let mut rest: &'a [u8] = *self;
        let actual_length = rest.read_var_octet_string_length(strict)?;
        rest.skip(actual_length)?;
        *self = rest;
        Ok(())
    }

    fn read_var_octet_string_length(&mut self, strict: bool) -> (res: Result<usize, OerError>) {
        let bytes: &'a [u8] = *self;
        if bytes.len() == 0 {
            return Err(OerError::UnexpectedEof);
        }
        let length = bytes[0];
        proof {
            lemma_length_byte(length);
        }
        if length & HIGH_BIT != 0 {
            let length_prefix_length = (length & LOWER_SEVEN_BITS) as usize;
            if length_prefix_length > 8 {
                Err(OerError::LengthPrefixTooLarge)
            } else if length_prefix_length == 0 {
                Err(OerError::IndefiniteLength)
            } else {
                let after = slice_subrange(bytes, 1, bytes.len());
                let uint = match read_uint_be(after, length_prefix_length) {
                    Some(uint) => uint,
                    None => {
                        return Err(OerError::UnexpectedEof);
                    },
                };
                proof {
                    let field = bytes@.subrange(1, 1 + length_prefix_length as int);
                    assert(after@.take(length_prefix_length as int) =~= field);
                    lemma_be_value_bound(field);
                    lemma_pow256_values();
                }
                check_no_leading_zeroes(length_prefix_length, uint, strict)?;
                if length_prefix_length == 1 && uint < 128 {
                    return Err(OerError::UnnecessaryMultibyteLength);
                }
                if uint > usize::MAX as u64 {
                    return Err(OerError::LengthOverflow);
                }
                *self = slice_subrange(after, length_prefix_length, after.len());
                Ok(uint as usize)
            }
        } else {
            *self = slice_subrange(bytes, 1, bytes.len());
            Ok(length as usize)
        }
    }

    fn read_var_uint(&mut self, strict: bool) -> (res: Result<u64, OerError>) {
        let mut rest: &'a [u8] = *self;
        let size = rest.read_var_octet_string_length(strict)?;
        if size == 0 {
            Err(OerError::ZeroLengthVarUInt)
        } else if size > 8 {
            Err(OerError::VarUIntTooLarge)
        } else {
            let uint = match read_uint_be(rest, size) {
                Some(uint) => uint,
                None => {
                    return Err(OerError::UnexpectedEof);
                },
            };
            proof {
                let used = (old(self)@.len() - rest@.len()) as int;
                let field = old(self)@.subrange(used, used + size);
                assert(rest@.take(size as int) =~= field);
                lemma_be_value_bound(field);
                lemma_pow256_values();
            }
            check_no_leading_zeroes(size, uint, strict)?;
            *self = slice_subrange(rest, size, rest.len());
            Ok(uint)
        }
    }

    fn read_variable_length_timestamp(&mut self, strict: bool) -> (res: Result<
        VariableLengthTimestamp,
        OerError,
    >) {
        let mut rest: &'a [u8] = *self;
        let octets = rest.read_var_octet_string(strict)?;
        if str_from_utf8(octets).is_none() {
            return Err(OerError::InvalidUtf8);
        }
        match VariableLengthTimestamp::parse(octets) {
            Some(timestamp) => {
                *self = rest;
                Ok(timestamp)
            },
            None => Err(OerError::InvalidTimestamp),
        }
    }
}

} // verus!
