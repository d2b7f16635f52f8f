//! Writing the primitives to the end of a byte vector.
//!
//! Every length is written in its shortest form.

use crate::bigendian::{lemma_be_bytes_len, put_uint_be};
use crate::oer::{
    encode_length, encode_var_octet_string, encode_var_uint, predict_var_uint_size,
};
use crate::timestamp::{timestamp_text, VariableLengthTimestamp};
use vstd::prelude::*;

verus! {

const HIGH_BIT: u8 = 0x80;

/// Writing the primitives to the end of a sink, each length in its shortest
/// form.
pub trait MutBufOerExt {
    /// The bytes that the sink holds.
    spec fn written(&self) -> Seq<u8>;

    /// Encodes bytes as variable-length octet encoded string and appends it.
    fn put_var_octet_string(&mut self, buf: &[u8])
        ensures
            final(self).written() == old(self).written() + encode_var_octet_string(buf@),
    ;

    /// Encodes the length of a datatype as variable-length octet encoded
    /// unsigned integer and appends it.
    fn put_var_octet_string_length(&mut self, length: usize)
        ensures
            final(self).written() == old(self).written() + encode_length(length as nat),
    ;

    /// Encodes `u64` as variable-length octet encoded unsigned integer and
    /// appends it.
    fn put_var_uint(&mut self, uint: u64)
        ensures
            final(self).written() == old(self).written() + encode_var_uint(uint as nat),
    ;

    /// Encodes the timestamp as the octet string of its text and appends it.
    fn put_variable_length_timestamp(&mut self, vts: &VariableLengthTimestamp)
        ensures
            final(self).written() == old(self).written() + encode_var_octet_string(
                timestamp_text(vts@),
            ),
    ;
}

impl MutBufOerExt for Vec<u8> {
    open spec fn written(&self) -> Seq<u8> {
        self@
    }

    fn put_var_octet_string(&mut self, buf: &[u8]) {
        self.put_var_octet_string_length(buf.len());
        self.extend_from_slice(buf);
    }

    fn put_var_octet_string_length(&mut self, length: usize) {
        if length < 128 {
            self.push(length as u8);
        } else {
            let length_of_length = predict_var_uint_size(length as u64) as usize;
            let size = length_of_length as u8;
            assert(HIGH_BIT | size == 0x80 + size) by (bit_vector)
                requires
                    1 <= size <= 8,
            ;
            self.push(HIGH_BIT | size);
            put_uint_be(self, length as u64, length_of_length);
        }
    }

    fn put_var_uint(&mut self, uint: u64) {
        let size = predict_var_uint_size(uint) as usize;
        self.put_var_octet_string_length(size);
        put_uint_be(self, uint, size);
        proof {
            lemma_be_bytes_len(uint as nat, size as nat);
        }
    }

    fn put_variable_length_timestamp(&mut self, vts: &VariableLengthTimestamp) {
        let text = vts.trim();
        self.put_var_octet_string(text.as_slice());
    }
}

} // verus!
