//! What holds of every timestamp: its text is read back as the timestamp,
//! and a text that is read is the text of what was read.

use crate::error::OerError;
use crate::laws_oer::{
    lemma_var_octet_string_bounds, lemma_var_octet_string_canonical,
    lemma_var_octet_string_round_trip,
};
use crate::oer::{decode_var_octet_string, encode_var_octet_string};
use crate::text::lemma_ascii_is_utf8;
use crate::timestamp::{
    decimal, decimal_value, decode_timestamp, digits_in, full_text, lemma_decimal_len,
    parse_timestamp, timestamp_text, TimestampView, POINT, ZERO, ZULU,
};
use vstd::prelude::*;

verus! {

/// 10 to the power `n`.
pub open spec fn pow10(n: nat) -> nat
    decreases n,
{
    if n == 0 {
        1
    } else {
        10 * pow10((n - 1) as nat)
    }
}

/// `decimal` gives decimal digits.
pub proof fn lemma_decimal_digits(value: nat, width: nat)
    ensures
        decimal(value, width).len() == width,
        digits_in(decimal(value, width), 0, width as int),
    decreases width,
{
    lemma_decimal_len(value, width);
    if width > 0 {
        lemma_decimal_digits(value / 10, (width - 1) as nat);
        lemma_decimal_len(value / 10, (width - 1) as nat);
    }
}

/// The digits of a number spell that number, where they are enough to
/// hold it.
pub proof fn lemma_decimal_value_of_decimal(value: nat, width: nat)
    requires
        value < pow10(width),
    ensures
        decimal_value(decimal(value, width)) == value,
    decreases width,
{
    if width > 0 {
        assert(decimal(value, width).drop_last() =~= decimal(value / 10, (width - 1) as nat));
        lemma_decimal_value_of_decimal(value / 10, (width - 1) as nat);
    }
}

/// The number that some digits spell is written with those digits, and is
/// below ten to the number of the digits.
pub proof fn lemma_decimal_of_decimal_value(digits: Seq<u8>)
    requires
        digits_in(digits, 0, digits.len() as int),
    ensures
        decimal(decimal_value(digits), digits.len()) == digits,
        decimal_value(digits) < pow10(digits.len()),
    decreases digits.len(),
{
    if digits.len() > 0 {
        let init = digits.drop_last();
        assert forall|i: int| 0 <= i < init.len() implies ZERO <= #[trigger] init[i] <= ZERO + 9 by {
            assert(init[i] == digits[i]);
        }
        lemma_decimal_of_decimal_value(init);
        let last = digits.last();
        assert(ZERO <= digits[digits.len() - 1] <= ZERO + 9);
        let value = decimal_value(digits);
        assert(value == decimal_value(init) * 10 + (last - ZERO));
        assert(value / 10 == decimal_value(init));
        assert(value % 10 == (last - ZERO));
        assert(decimal(value, digits.len()) =~= digits);
    }
}

/// The pieces of the full text of a moment, and where they stand.
proof fn lemma_full_text_pieces(timestamp: TimestampView)
    requires
        timestamp.wf(),
    ensures
        ({
            let m = timestamp.moment;
            let full = full_text(m);
            &&& full.len() == 19
            &&& full.subrange(0, 4) == decimal(m.year as nat, 4)
            &&& full.subrange(4, 6) == decimal(m.month as nat, 2)
            &&& full.subrange(6, 8) == decimal(m.day as nat, 2)
            &&& full.subrange(8, 10) == decimal(m.hour as nat, 2)
            &&& full.subrange(10, 12) == decimal(m.minute as nat, 2)
            &&& full.subrange(12, 14) == decimal(m.second as nat, 2)
            &&& full[14] == POINT
            &&& full.subrange(15, 18) == decimal(m.millisecond as nat, 3)
            &&& full[18] == ZULU
            &&& digits_in(full, 0, 14)
            &&& digits_in(full, 15, 18)
        }),
{
    let m = timestamp.moment;
    let full = full_text(m);
    lemma_decimal_digits(m.year as nat, 4);
    lemma_decimal_digits(m.month as nat, 2);
    lemma_decimal_digits(m.day as nat, 2);
    lemma_decimal_digits(m.hour as nat, 2);
    lemma_decimal_digits(m.minute as nat, 2);
    lemma_decimal_digits(m.second as nat, 2);
    lemma_decimal_digits(m.millisecond as nat, 3);
}

/// The text of a timestamp is read as that timestamp, where the text shows
/// all of the millisecond.
pub proof fn lemma_timestamp_text_parses(timestamp: TimestampView)
    requires
        timestamp.wf(),
        timestamp.is_exact(),
    ensures
        timestamp_text(timestamp).len() == timestamp.len,
        parse_timestamp(timestamp_text(timestamp)) == Some(timestamp),
        forall|i: int|
            0 <= i < timestamp_text(timestamp).len() ==> #[trigger] timestamp_text(timestamp)[i]
                < 0x80,
{
    let m = timestamp.moment;
    let len = timestamp.len;
    let full = full_text(m);
    let text = timestamp_text(timestamp);
    lemma_full_text_pieces(timestamp);
    reveal_with_fuel(pow10, 5);
    assert(text.subrange(0, 4) =~= full.subrange(0, 4));
    assert(text.subrange(4, 6) =~= full.subrange(4, 6));
    assert(text.subrange(6, 8) =~= full.subrange(6, 8));
    assert(text.subrange(8, 10) =~= full.subrange(8, 10));
    assert(text.subrange(10, 12) =~= full.subrange(10, 12));
    assert(text.subrange(12, 14) =~= full.subrange(12, 14));
    lemma_decimal_value_of_decimal(m.year as nat, 4);
    lemma_decimal_value_of_decimal(m.month as nat, 2);
    lemma_decimal_value_of_decimal(m.day as nat, 2);
    lemma_decimal_value_of_decimal(m.hour as nat, 2);
    lemma_decimal_value_of_decimal(m.minute as nat, 2);
    lemma_decimal_value_of_decimal(m.second as nat, 2);
    assert forall|i: int| 0 <= i < text.len() implies #[trigger] text[i] < 0x80 by {
        if i < len - 1 {
            assert(text[i] == full[i]);
        }
    }
    let ms = m.millisecond as nat;
    let digits = decimal(ms, 3);
    if len == 19 {
        assert(text.subrange(15, 18) =~= digits);
        lemma_decimal_value_of_decimal(ms, 3);
    } else if len == 18 {
        assert(text.subrange(15, 17) =~= digits.drop_last());
        assert(digits.drop_last() =~= decimal(ms / 10, 2));
        lemma_decimal_value_of_decimal(ms / 10, 2);
    } else if len == 17 {
        assert(text.subrange(15, 16) =~= digits.drop_last().drop_last());
        assert(digits.drop_last() =~= decimal(ms / 10, 2));
        assert(decimal(ms / 10, 2).drop_last() =~= decimal(ms / 10 / 10, 1));
        lemma_decimal_value_of_decimal(ms / 100, 1);
    }
}

/// A text that is read as a timestamp is the text of that timestamp, and
/// shows all of its millisecond.
pub proof fn lemma_parsed_timestamp_text(text: Seq<u8>)
    requires
        parse_timestamp(text) is Some,
    ensures
        ({
            let timestamp = parse_timestamp(text)->Some_0;
            &&& timestamp.wf()
            &&& timestamp.is_exact()
            &&& timestamp_text(timestamp) == text
        }),
{
    let timestamp = parse_timestamp(text)->Some_0;
    let m = timestamp.moment;
    let len = text.len() as int;
    let full = full_text(m);
    lemma_field_digits(text, 0, 4);
    lemma_field_digits(text, 4, 6);
    lemma_field_digits(text, 6, 8);
    lemma_field_digits(text, 8, 10);
    lemma_field_digits(text, 10, 12);
    lemma_field_digits(text, 12, 14);
    lemma_full_text_pieces(timestamp);
    let ms = m.millisecond as nat;
    let digits = decimal(ms, 3);
    reveal_with_fuel(pow10, 5);
    if len == 19 {
        lemma_field_digits(text, 15, 18);
        assert(digits == text.subrange(15, 18));
    } else if len == 18 {
        lemma_field_digits(text, 15, 17);
        let fraction = decimal_value(text.subrange(15, 17));
        assert(ms == fraction * 10);
        assert(digits.drop_last() =~= decimal(ms / 10, 2));
        assert(full.subrange(15, 17) =~= digits.drop_last());
    } else if len == 17 {
        lemma_field_digits(text, 15, 16);
        let fraction = decimal_value(text.subrange(15, 16));
        assert(ms == fraction * 100);
        assert(digits.drop_last() =~= decimal(ms / 10, 2));
        assert(decimal(ms / 10, 2).drop_last() =~= decimal(ms / 10 / 10, 1));
        assert(full.subrange(15, 16) =~= digits.drop_last().drop_last());
    }
    let written = timestamp_text(timestamp);
    assert forall|i: int| 0 <= i < text.len() implies written[i] == text[i] by {
        if i < 4 {
            lemma_same_field(full, text, 0, 4, i);
        } else if i < 6 {
            lemma_same_field(full, text, 4, 6, i);
        } else if i < 8 {
            lemma_same_field(full, text, 6, 8, i);
        } else if i < 10 {
            lemma_same_field(full, text, 8, 10, i);
        } else if i < 12 {
            lemma_same_field(full, text, 10, 12, i);
        } else if i < 14 {
            lemma_same_field(full, text, 12, 14, i);
        } else if 15 <= i < len - 1 {
            lemma_same_field(full, text, 15, len - 1, i);
        }
    }
    assert(written =~= text);
}

/// Two texts with the same field have the same bytes in it.
proof fn lemma_same_field(a: Seq<u8>, b: Seq<u8>, from: int, to: int, i: int)
    requires
        0 <= from <= i < to,
        to <= a.len(),
        to <= b.len(),
        a.subrange(from, to) == b.subrange(from, to),
    ensures
        a[i] == b[i],
{
    assert(a.subrange(from, to)[i - from] == a[i]);
    assert(b.subrange(from, to)[i - from] == b[i]);
}

/// The digits of one field of a text are the digits of the number that they
/// spell.
proof fn lemma_field_digits(text: Seq<u8>, from: int, to: int)
    requires
        0 <= from <= to <= text.len(),
        digits_in(text, from, to),
    ensures
        decimal(decimal_value(text.subrange(from, to)), (to - from) as nat) == text.subrange(
            from,
            to,
        ),
        decimal_value(text.subrange(from, to)) < pow10((to - from) as nat),
{
    let field = text.subrange(from, to);
    assert forall|i: int| 0 <= i < field.len() implies ZERO <= #[trigger] field[i] <= ZERO + 9 by {
        assert(field[i] == text[from + i]);
    }
    lemma_decimal_of_decimal_value(field);
}

/// A timestamp that was written is read back, in either mode and whatever
/// follows it, where its text shows all of the millisecond.
pub proof fn lemma_timestamp_round_trip(timestamp: TimestampView, tail: Seq<u8>, strict: bool)
    requires
        timestamp.wf(),
        timestamp.is_exact(),
    ensures
        decode_timestamp(encode_var_octet_string(timestamp_text(timestamp)) + tail, strict) == Ok::<
            (TimestampView, nat),
            OerError,
        >((timestamp, encode_var_octet_string(timestamp_text(timestamp)).len())),
{
    let text = timestamp_text(timestamp);
    lemma_timestamp_text_parses(timestamp);
    lemma_ascii_is_utf8(text);
    lemma_var_octet_string_round_trip(text, tail, strict);
}

/// In strict mode only the bytes that writing produces are read as a
/// timestamp.
pub proof fn lemma_timestamp_canonical(bytes: Seq<u8>)
    requires
        decode_timestamp(bytes, true) is Ok,
    ensures
        ({
            let (timestamp, used) = decode_timestamp(bytes, true)->Ok_0;
            &&& used <= bytes.len()
            &&& timestamp.wf()
            &&& timestamp.is_exact()
            &&& encode_var_octet_string(timestamp_text(timestamp)) == bytes.take(used as int)
        }),
{
    lemma_var_octet_string_canonical(bytes);
    let (octets, used) = decode_var_octet_string(bytes, true)->Ok_0;
    lemma_parsed_timestamp_text(octets);
}

/// What is read as a timestamp, in either mode, is a well-formed timestamp
/// whose text shows all of its millisecond, and writing it takes no more
/// bytes than it took.
pub proof fn lemma_timestamp_bounds(bytes: Seq<u8>, strict: bool)
    requires
        decode_timestamp(bytes, strict) is Ok,
    ensures
        ({
            let (timestamp, used) = decode_timestamp(bytes, strict)->Ok_0;
            &&& used <= bytes.len()
            &&& timestamp.wf()
            &&& timestamp.is_exact()
            &&& 1 <= encode_var_octet_string(timestamp_text(timestamp)).len() <= used
        }),
{
    let (octets, used) = decode_var_octet_string(bytes, strict)->Ok_0;
    lemma_parsed_timestamp_text(octets);
    lemma_var_octet_string_bounds(bytes, strict);
}

} // verus!
