//! What holds of the primitives on every input: sizes, and reading against
//! writing.

use crate::bigendian::{
    be_bytes, lemma_be_bytes_len, lemma_be_bytes_of_value, lemma_be_value_bound,
    lemma_be_value_of_bytes, lemma_pow256_values,
};
use crate::error::OerError;
use crate::oer::{
    decode_length, decode_var_octet_string, decode_var_uint, encode_length,
    encode_var_octet_string, encode_var_uint, lemma_var_uint_size_is_least, var_octet_string_size,
    var_uint_size,
};
use vstd::prelude::*;

verus! {

/// A larger number never needs fewer bytes.
pub proof fn lemma_var_uint_size_monotonic(smaller: nat, larger: nat)
    requires
        smaller <= larger,
    ensures
        var_uint_size(smaller) <= var_uint_size(larger),
{
}

/// A length of at most eight bytes is announced in as many bytes as
/// `encode_length` has.
pub proof fn lemma_encode_length_len(length: nat)
    ensures
        encode_length(length).len() == if length < 128 {
            1
        } else {
            1 + var_uint_size(length)
        },
{
    lemma_be_bytes_len(length, var_uint_size(length));
}

/// An octet string on the wire is as long as its size is predicted to be.
pub proof fn lemma_predicted_size(content: Seq<u8>)
    ensures
        encode_var_octet_string(content).len() == var_octet_string_size(content.len()),
{
    lemma_encode_length_len(content.len());
}

/// A length that was written is read back, in either mode and whatever
/// follows it.
pub proof fn lemma_length_round_trip(length: nat, tail: Seq<u8>, strict: bool)
    requires
        length <= usize::MAX,
    ensures
        decode_length(encode_length(length) + tail, strict) == Ok::<(nat, nat), OerError>(
            (length, encode_length(length).len()),
        ),
{
    let bytes = encode_length(length) + tail;
    lemma_encode_length_len(length);
    if length >= 128 {
        let n = var_uint_size(length);
        lemma_var_uint_size_is_least(length);
        lemma_be_bytes_len(length, n);
        assert(bytes.subrange(1, 1 + n as int) =~= be_bytes(length, n));
        lemma_be_value_of_bytes(length, n);
    }
}

/// In strict mode only the bytes that writing produces are read as a
/// length.
pub proof fn lemma_length_canonical(bytes: Seq<u8>)
    requires
        decode_length(bytes, true) is Ok,
    ensures
        ({
            let (length, used) = decode_length(bytes, true)->Ok_0;
            &&& used <= bytes.len()
            &&& length <= usize::MAX
            &&& encode_length(length) == bytes.take(used as int)
        }),
{
    if bytes[0] >= 0x80 {
        let n = (bytes[0] - 0x80) as nat;
        lemma_be_bytes_of_value(bytes.subrange(1, 1 + n as int));
    }
}

/// What strict mode refuses of the lengths that lenient mode reads: those,
/// and only those, that writing would have made shorter. They are refused
/// for their leading zeros.
pub proof fn lemma_length_strictness(bytes: Seq<u8>)
    ensures
        decode_length(bytes, true) is Ok ==> decode_length(bytes, false) == decode_length(
            bytes,
            true,
        ),
        decode_length(bytes, false) matches Ok((length, used)) ==> {
            &&& encode_length(length) == bytes.take(used as int) ==> decode_length(bytes, true)
                == decode_length(bytes, false)
            &&& encode_length(length) != bytes.take(used as int) ==> decode_length(bytes, true)
                == Err::<(nat, nat), OerError>(OerError::LeadingZeros)
        },
{
    if decode_length(bytes, true) is Ok {
        lemma_length_canonical(bytes);
    }
    if let Ok((length, _)) = decode_length(bytes, false) {
        lemma_encode_length_len(length);
    }
}

/// An octet string that was written is read back, in either mode and
/// whatever follows it.
pub proof fn lemma_var_octet_string_round_trip(content: Seq<u8>, tail: Seq<u8>, strict: bool)
    requires
        content.len() <= usize::MAX,
    ensures
        decode_var_octet_string(encode_var_octet_string(content) + tail, strict) == Ok::<
            (Seq<u8>, nat),
            OerError,
        >((content, encode_var_octet_string(content).len())),
{
    let prefix = encode_length(content.len());
    let bytes = encode_var_octet_string(content) + tail;
    assert(bytes =~= prefix + (content + tail));
    lemma_length_round_trip(content.len(), content + tail, strict);
    assert(bytes.subrange(prefix.len() as int, (prefix.len() + content.len()) as int) =~= content);
}

/// In strict mode only the bytes that writing produces are read as an octet
/// string.
pub proof fn lemma_var_octet_string_canonical(bytes: Seq<u8>)
    requires
        decode_var_octet_string(bytes, true) is Ok,
    ensures
        ({
            let (content, used) = decode_var_octet_string(bytes, true)->Ok_0;
            &&& used <= bytes.len()
            &&& content.len() <= usize::MAX
            &&& encode_var_octet_string(content) == bytes.take(used as int)
        }),
{
    lemma_length_canonical(bytes);
}

/// What is read as a length, in either mode, fits a platform size, and
/// writing it takes no more bytes than it took.
pub proof fn lemma_length_bounds(bytes: Seq<u8>, strict: bool)
    requires
        decode_length(bytes, strict) is Ok,
    ensures
        ({
            let (length, used) = decode_length(bytes, strict)->Ok_0;
            &&& used <= bytes.len()
            &&& length <= usize::MAX
            &&& 1 <= encode_length(length).len() <= used
        }),
{
    let (length, used) = decode_length(bytes, strict)->Ok_0;
    lemma_encode_length_len(length);
    if bytes[0] >= 0x80 {
        let n = (bytes[0] - 0x80) as nat;
        lemma_be_value_bound(bytes.subrange(1, 1 + n as int));
        lemma_pow256_values();
    }
}

/// What is read as an octet string, in either mode, lies within the bytes
/// and is no longer than a platform size, and writing it takes no more bytes
/// than it took.
pub proof fn lemma_var_octet_string_bounds(bytes: Seq<u8>, strict: bool)
    requires
        decode_var_octet_string(bytes, strict) is Ok,
    ensures
        ({
            let (content, used) = decode_var_octet_string(bytes, strict)->Ok_0;
            &&& used <= bytes.len()
            &&& content.len() <= usize::MAX
            &&& 1 <= encode_var_octet_string(content).len() <= used
        }),
{
    lemma_length_bounds(bytes, strict);
}

/// An unsigned integer that was written is read back, in either mode and
/// whatever follows it.
pub proof fn lemma_var_uint_round_trip(value: nat, tail: Seq<u8>, strict: bool)
    requires
        value <= u64::MAX,
    ensures
        decode_var_uint(encode_var_uint(value) + tail, strict) == Ok::<(nat, nat), OerError>(
            (value, encode_var_uint(value).len()),
        ),
{
    let size = var_uint_size(value);
    let payload = be_bytes(value, size);
    lemma_var_uint_size_is_least(value);
    lemma_be_bytes_len(value, size);
    lemma_be_value_of_bytes(value, size);
    let bytes = encode_var_uint(value) + tail;
    let prefix = encode_length(size);
    lemma_length_round_trip(size, payload + tail, strict);
    assert(bytes.subrange(prefix.len() as int, (prefix.len() + size) as int) =~= payload);
}

/// In strict mode only the bytes that writing produces are read as an
/// unsigned integer.
pub proof fn lemma_var_uint_canonical(bytes: Seq<u8>)
    requires
        decode_var_uint(bytes, true) is Ok,
    ensures
        ({
            let (value, used) = decode_var_uint(bytes, true)->Ok_0;
            &&& used <= bytes.len()
            &&& value <= u64::MAX
            &&& encode_var_uint(value) == bytes.take(used as int)
        }),
{
    lemma_length_canonical(bytes);
    let (size, prefix) = decode_length(bytes, true)->Ok_0;
    let payload = bytes.subrange(prefix as int, (prefix + size) as int);
    lemma_be_bytes_of_value(payload);
    lemma_be_value_bound(payload);
    lemma_pow256_values();
}

/// What is read as an unsigned integer, in either mode, lies within the
/// bytes and fits 64 bits, and writing it takes no more bytes than it took.
pub proof fn lemma_var_uint_bounds(bytes: Seq<u8>, strict: bool)
    requires
        decode_var_uint(bytes, strict) is Ok,
    ensures
        ({
            let (value, used) = decode_var_uint(bytes, strict)->Ok_0;
            &&& used <= bytes.len()
            &&& value <= u64::MAX
            &&& 1 <= encode_var_uint(value).len() <= used
        }),
{
    let (value, used) = decode_var_uint(bytes, strict)->Ok_0;
    let (size, prefix) = decode_length(bytes, strict)->Ok_0;
    let payload = bytes.subrange(prefix as int, (prefix + size) as int);
    lemma_be_value_bound(payload);
    lemma_pow256_values();
    lemma_be_bytes_len(value, var_uint_size(value));
    lemma_encode_length_len(var_uint_size(value));
}

} // verus!
