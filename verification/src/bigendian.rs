//! Big-endian integers of one to eight bytes.
//!
//! `be_value` and `be_bytes` say what such an integer is; the executable
//! conversions are made by the `byteorder` and `bytes` crates, whose calls
//! stand behind the four functions at the end of this file.

use byteorder::ReadBytesExt;
use vstd::prelude::*;

verus! {

/// 256 to the power `n`.
pub open spec fn pow256(n: nat) -> nat
    decreases n,
{
    if n == 0 {
        1
    } else {
        256 * pow256((n - 1) as nat)
    }
}

/// The number that `bytes` spell, most significant byte first.
pub open spec fn be_value(bytes: Seq<u8>) -> nat
    decreases bytes.len(),
{
    if bytes.len() == 0 {
        0
    } else {
        be_value(bytes.drop_last()) * 256 + bytes.last() as nat
    }
}

/// The low `nbytes` bytes of `value`, most significant byte first.
pub open spec fn be_bytes(value: nat, nbytes: nat) -> Seq<u8>
    decreases nbytes,
{
    if nbytes == 0 {
        Seq::empty()
    } else {
        be_bytes(value / 256, (nbytes - 1) as nat).push((value % 256) as u8)
    }
}

/// The powers of 256 that an eight-byte integer can meet.
pub proof fn lemma_pow256_values()
    ensures
        pow256(0) == 1,
        pow256(1) == 0x100,
        pow256(2) == 0x1_0000,
        pow256(3) == 0x100_0000,
        pow256(4) == 0x1_0000_0000,
        pow256(5) == 0x100_0000_0000,
        pow256(6) == 0x1_0000_0000_0000,
        pow256(7) == 0x100_0000_0000_0000,
        pow256(8) == 0x1_0000_0000_0000_0000,
{
    reveal_with_fuel(pow256, 9);
}

/// `be_bytes` gives as many bytes as it is asked for.
pub proof fn lemma_be_bytes_len(value: nat, nbytes: nat)
    ensures
        be_bytes(value, nbytes).len() == nbytes,
    decreases nbytes,
{
    if nbytes > 0 {
        lemma_be_bytes_len(value / 256, (nbytes - 1) as nat);
    }
}

/// The value of `n` bytes is below 256 to the `n`.
pub proof fn lemma_be_value_bound(bytes: Seq<u8>)
    ensures
        be_value(bytes) < pow256(bytes.len()),
    decreases bytes.len(),
{
    if bytes.len() > 0 {
        lemma_be_value_bound(bytes.drop_last());
    }
}

/// Reading back what was written gives the number that was written, where
/// it fits the width.
pub proof fn lemma_be_value_of_bytes(value: nat, nbytes: nat)
    requires
        value < pow256(nbytes),
    ensures
        be_value(be_bytes(value, nbytes)) == value,
    decreases nbytes,
{
    if nbytes > 0 {
        let rest = be_bytes(value / 256, (nbytes - 1) as nat);
        let all = be_bytes(value, nbytes);
        assert(all.drop_last() =~= rest);
        lemma_be_value_of_bytes(value / 256, (nbytes - 1) as nat);
    }
}

/// Writing the value of some bytes in their own width gives them back.
pub proof fn lemma_be_bytes_of_value(bytes: Seq<u8>)
    ensures
        be_bytes(be_value(bytes), bytes.len()) == bytes,
    decreases bytes.len(),
{
    if bytes.len() > 0 {
        lemma_be_bytes_of_value(bytes.drop_last());
    }
}

/// `byteorder`'s `ReadBytesExt::read_uint::<BigEndian>` on a byte slice:
/// the value of the first `nbytes` bytes, or nothing where the slice is
/// shorter than that.
#[verifier::external_body]
pub(crate) fn read_uint_be(bytes: &[u8], nbytes: usize) -> (value: Option<u64>)
    requires
        1 <= nbytes <= 8,
    ensures
        nbytes <= bytes@.len() ==> value == Some(be_value(bytes@.take(nbytes as int)) as u64),
        nbytes > bytes@.len() ==> value is None,
{
    let mut reader = bytes;
    reader.read_uint::<byteorder::BigEndian>(nbytes).ok()
}

/// `byteorder`'s `ReadBytesExt::read_u32::<BigEndian>` on a byte slice: the
/// value of the first four bytes, or nothing where the slice is shorter.
#[verifier::external_body]
pub(crate) fn read_u32_be(bytes: &[u8]) -> (value: Option<u32>)
    ensures
        4 <= bytes@.len() ==> value == Some(be_value(bytes@.take(4)) as u32),
        4 > bytes@.len() ==> value is None,
{
    let mut reader = bytes;
    reader.read_u32::<byteorder::BigEndian>().ok()
}

/// `bytes`' `BufMut::put_uint` on a vector: appends the low `nbytes` bytes of
/// `value`, most significant byte first.
#[verifier::external_body]
pub(crate) fn put_uint_be(buf: &mut Vec<u8>, value: u64, nbytes: usize)
    requires
        1 <= nbytes <= 8,
    ensures
        final(buf)@ == old(buf)@ + be_bytes(value as nat, nbytes as nat),
{
    bytes::BufMut::put_uint(buf, value, nbytes);
}

/// `bytes`' `BufMut::put_u32` on a vector: appends the four bytes of `value`,
/// most significant byte first.
#[verifier::external_body]
pub(crate) fn put_u32_be(buf: &mut Vec<u8>, value: u32)
    ensures
        final(buf)@ == old(buf)@ + be_bytes(value as nat, 4),
{
    bytes::BufMut::put_u32(buf, value);
}

} // verus!
