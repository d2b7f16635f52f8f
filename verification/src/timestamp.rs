//! The variable-length timestamp: the text `YYYYMMDDHHMMSS[.f[f[f]]]Z`.
//!
//! The text is 15, 17, 18 or 19 bytes long, with none, one, two or three
//! digits of the second's fraction. A timestamp keeps the length of the text
//! it was read from, and is written back at that length.

use crate::calendar::{CivilTime, UtcDateTime};
use crate::error::OerError;
use crate::oer::decode_var_octet_string;
use crate::text::{lemma_ascii_is_utf8, str_from_utf8};
use vstd::prelude::*;
use vstd::utf8::{decode_utf8_encode_utf8, encode_utf8, valid_utf8};

verus! {

/// The letter that ends every timestamp.
pub const ZULU: u8 = 0x5a;

/// The sign between the seconds and their fraction.
pub const POINT: u8 = 0x2e;

/// The digit zero.
pub const ZERO: u8 = 0x30;

/// The decimal digits of `value`, the last `width` of them, most significant
/// first.
pub open spec fn decimal(value: nat, width: nat) -> Seq<u8>
    decreases width,
{
    if width == 0 {
        Seq::empty()
    } else {
        decimal(value / 10, (width - 1) as nat).push((ZERO + value % 10) as u8)
    }
}

/// The number that the decimal digits `digits` spell.
pub open spec fn decimal_value(digits: Seq<u8>) -> nat
    decreases digits.len(),
{
    if digits.len() == 0 {
        0
    } else {
        decimal_value(digits.drop_last()) * 10 + (digits.last() - ZERO) as nat
    }
}

/// Whether the bytes of `text` from `from` up to `to` are decimal digits.
pub open spec fn digits_in(text: Seq<u8>, from: int, to: int) -> bool {
    forall|i: int| from <= i < to ==> ZERO <= #[trigger] text[i] <= ZERO + 9
}

/// Whether a text of `len` bytes can be a timestamp.
pub open spec fn is_timestamp_len(len: int) -> bool {
    len == 15 || len == 17 || len == 18 || len == 19
}

/// A timestamp as plain values: the moment, and the length of its text.
pub struct TimestampView {
    pub moment: CivilTime,
    pub len: int,
}

impl TimestampView {
    /// A moment that exists and a length that a timestamp can have.
    pub open spec fn wf(self) -> bool {
        self.moment.wf() && is_timestamp_len(self.len)
    }

    /// Whether the text of this length shows all of the millisecond.
    pub open spec fn is_exact(self) -> bool {
        &&& self.len == 15 ==> self.moment.millisecond == 0
        &&& self.len == 17 ==> self.moment.millisecond % 100 == 0
        &&& self.len == 18 ==> self.moment.millisecond % 10 == 0
    }
}

/// The text of a moment with all three digits of the fraction.
pub open spec fn full_text(moment: CivilTime) -> Seq<u8> {
    decimal(moment.year as nat, 4) + decimal(moment.month as nat, 2) + decimal(
        moment.day as nat,
        2,
    ) + decimal(moment.hour as nat, 2) + decimal(moment.minute as nat, 2) + decimal(
        moment.second as nat,
        2,
    ) + seq![POINT] + decimal(moment.millisecond as nat, 3) + seq![ZULU]
}

/// The text of a timestamp: the full text cut to one byte less than the
/// timestamp's length, and the closing letter.
pub open spec fn timestamp_text(timestamp: TimestampView) -> Seq<u8> {
    full_text(timestamp.moment).take(timestamp.len - 1).push(ZULU)
}

/// The timestamp that `text` spells, where it spells one.
pub open spec fn parse_timestamp(text: Seq<u8>) -> Option<TimestampView> {
    let len = text.len() as int;
    if !is_timestamp_len(len) {
        None
    } else if !digits_in(text, 0, 14) || text[len - 1] != ZULU {
        None
    } else if len > 15 && (text[14] != POINT || !digits_in(text, 15, len - 1)) {
        None
    } else {
        let fraction = if len > 15 {
            decimal_value(text.subrange(15, len - 1))
        } else {
            0
        };
        let moment = CivilTime {
            year: decimal_value(text.subrange(0, 4)) as int,
            month: decimal_value(text.subrange(4, 6)) as int,
            day: decimal_value(text.subrange(6, 8)) as int,
            hour: decimal_value(text.subrange(8, 10)) as int,
            minute: decimal_value(text.subrange(10, 12)) as int,
            second: decimal_value(text.subrange(12, 14)) as int,
            millisecond: if len == 17 {
                (fraction * 100) as int
            } else if len == 18 {
                (fraction * 10) as int
            } else {
                fraction as int
            },
        };
        if moment.wf() {
            Some(TimestampView { moment, len })
        } else {
            None
        }
    }
}

/// The timestamp at the start of `bytes`, and the number of bytes that it
/// takes with its length.
pub open spec fn decode_timestamp(bytes: Seq<u8>, strict: bool) -> Result<
    (TimestampView, nat),
    OerError,
> {
    match decode_var_octet_string(bytes, strict) {
        Err(e) => Err(e),
        Ok((octets, used)) => if !valid_utf8(octets) {
            Err(OerError::InvalidUtf8)
        } else {
            match parse_timestamp(octets) {
                None => Err(OerError::InvalidTimestamp),
                Some(timestamp) => Ok((timestamp, used)),
            }
        },
    }
}

/// `decimal` gives as many digits as it is asked for.
pub proof fn lemma_decimal_len(value: nat, width: nat)
    ensures
        decimal(value, width).len() == width,
    decreases width,
{
    if width > 0 {
        lemma_decimal_len(value / 10, (width - 1) as nat);
    }
}

/// Appends the last `width` decimal digits of `value` to `buf`.
fn push_decimal(buf: &mut Vec<u8>, value: u16, width: usize)
    requires
        forall|i: int| 0 <= i < old(buf)@.len() ==> #[trigger] old(buf)@[i] < 0x80,
    ensures
        final(buf)@ == old(buf)@ + decimal(value as nat, width as nat),
        forall|i: int| 0 <= i < final(buf)@.len() ==> #[trigger] final(buf)@[i] < 0x80,
    decreases width,
{
    if width == 0 {
    } else {
        push_decimal(buf, value / 10, width - 1);
        buf.push(ZERO + (value % 10) as u8);
    }
}

/// The text of `moment` as a timestamp of `len` bytes.
fn text_of(moment: &UtcDateTime, len: u8) -> (text: Vec<u8>)
    requires
        is_timestamp_len(len as int),
    ensures
        text@ == timestamp_text(TimestampView { moment: moment@, len: len as int }),
        text@.len() == len,
        forall|i: int| 0 <= i < text@.len() ==> #[trigger] text@[i] < 0x80,
{
    let mut text: Vec<u8> = Vec::new();
    push_decimal(&mut text, moment.year(), 4);
    push_decimal(&mut text, moment.month() as u16, 2);
    push_decimal(&mut text, moment.day() as u16, 2);
    push_decimal(&mut text, moment.hour() as u16, 2);
    push_decimal(&mut text, moment.minute() as u16, 2);
    push_decimal(&mut text, moment.second() as u16, 2);
    text.push(POINT);
    push_decimal(&mut text, moment.millisecond(), 3);
    text.push(ZULU);
    proof {
        let m = moment@;
        lemma_decimal_len(m.year as nat, 4);
        lemma_decimal_len(m.month as nat, 2);
        lemma_decimal_len(m.day as nat, 2);
        lemma_decimal_len(m.hour as nat, 2);
        lemma_decimal_len(m.minute as nat, 2);
        lemma_decimal_len(m.second as nat, 2);
        lemma_decimal_len(m.millisecond as nat, 3);
    }
    text.truncate((len - 1) as usize);
    text.push(ZULU);
    text
}

/// A length that fits one byte, as the length of a timestamp's text does.
pub trait SmallVariableLengthField: Sized {
    /// The length that the field holds.
    spec fn length(&self) -> nat;

    /// The field that holds `len`.
    fn from(len: usize) -> (field: Self)
        requires
            len <= u8::MAX,
        ensures
            field.length() == len,
    ;

    /// The length that the field holds.
    fn to_usize(&self) -> (len: usize)
        ensures
            len == self.length(),
    ;

    /// The text of `ts` as a timestamp of this length.
    fn trim_millis(&self, ts: &UtcDateTime) -> (text: String)
        requires
            is_timestamp_len(self.length() as int),
        ensures
            encode_utf8(text@) == timestamp_text(
                TimestampView { moment: ts@, len: self.length() as int },
            ),
    ;
}

impl SmallVariableLengthField for u8 {
    open spec fn length(&self) -> nat {
        *self as nat
    }

    fn from(len: usize) -> (field: Self) {
        len as u8
    }

    fn to_usize(&self) -> (len: usize) {
        *self as usize
    }

    fn trim_millis(&self, ts: &UtcDateTime) -> (text: String) {
        let bytes = text_of(ts, *self);
        proof {
            lemma_ascii_is_utf8(bytes@);
            decode_utf8_encode_utf8(bytes@);
        }
        match str_from_utf8(bytes.as_slice()) {
            Some(text) => text.to_owned(),
            None => String::new(),
        }
    }
}

/// The number that the bytes of `text` from `from` up to `to` spell, where
/// they are decimal digits.
fn read_decimal(text: &[u8], from: usize, to: usize) -> (value: Option<u16>)
    requires
        from <= to <= text@.len(),
        to - from <= 4,
    ensures
        match value {
            Some(v) => {
                &&& digits_in(text@, from as int, to as int)
                &&& v == decimal_value(text@.subrange(from as int, to as int))
                &&& to - from <= 2 ==> v <= 99
                &&& to - from <= 3 ==> v <= 999
            },
            None => !digits_in(text@, from as int, to as int),
        },
{
    let mut value: u16 = 0;
    let mut i: usize = from;
    while i < to
        invariant
            from <= i <= to <= text@.len(),
            to - from <= 4,
            digits_in(text@, from as int, i as int),
            value == decimal_value(text@.subrange(from as int, i as int)),
            i - from == 0 ==> value == 0,
            i - from == 1 ==> value <= 9,
            i - from == 2 ==> value <= 99,
            i - from == 3 ==> value <= 999,
        decreases to - i,
    {
        let digit = text[i];
        if digit < ZERO || digit > ZERO + 9 {
            return None;
        }
        value = value * 10 + (digit - ZERO) as u16;
        i += 1;
        assert(text@.subrange(from as int, i as int).drop_last() =~= text@.subrange(
            from as int,
            i - 1,
        ));
    }
    Some(value)
}

/// A moment in UTC, and the length of the text that it was read from or is
/// to be written as.
#[derive(Clone, Copy, Debug, PartialEq, Eq)]
pub struct VariableLengthTimestamp {
    inner: UtcDateTime,
    len: u8,
}

impl View for VariableLengthTimestamp {
    type V = TimestampView;

    closed spec fn view(&self) -> TimestampView {
        TimestampView { moment: self.inner@, len: self.len as int }
    }
}

impl VariableLengthTimestamp {
    /// What holds of every timestamp: its text has a length that a
    /// timestamp can have.
    #[verifier::type_invariant]
    pub open spec fn valid(self) -> bool {
        is_timestamp_len(self@.len)
    }

    /// The timestamp of `inner` with a text of `len` bytes, where a timestamp
    /// can have that length.
    pub fn new(inner: UtcDateTime, len: u8) -> (timestamp: Option<VariableLengthTimestamp>)
        ensures
            match timestamp {
                Some(t) => t@ == (TimestampView { moment: inner@, len: len as int }) && t@.wf(),
                None => !is_timestamp_len(len as int),
            },
    {
        if len == 15 || len == 17 || len == 18 || len == 19 {
            proof {
                use_type_invariant(&inner);
            }
            Some(VariableLengthTimestamp { inner, len })
        } else {
            None
        }
    }

    /// The moment.
    pub fn inner(&self) -> (inner: UtcDateTime)
        ensures
            inner@ == self@.moment,
            self@.wf(),
    {
        proof {
            use_type_invariant(self);
            use_type_invariant(&self.inner);
        }
        self.inner
    }

    /// The timestamp that `text` spells, where it spells one.
    pub fn parse(text: &[u8]) -> (timestamp: Option<VariableLengthTimestamp>)
        ensures
            match timestamp {
                Some(t) => parse_timestamp(text@) == Some(t@),
                None => parse_timestamp(text@) is None,
            },
    {
        let len = text.len();
        if !(len == 15 || len == 17 || len == 18 || len == 19) {
            return None;
        }
        if text[len - 1] != ZULU {
            return None;
        }
        let year = read_decimal(text, 0, 4)?;
        let month = read_decimal(text, 4, 6)?;
        let day = read_decimal(text, 6, 8)?;
        let hour = read_decimal(text, 8, 10)?;
        let minute = read_decimal(text, 10, 12)?;
        let second = read_decimal(text, 12, 14)?;
        let mut millisecond: u16 = 0;
        if len > 15 {
            if text[14] != POINT {
                return None;
            }
            let fraction = read_decimal(text, 15, len - 1)?;
            millisecond = if len == 17 {
                fraction * 100
            } else if len == 18 {
                fraction * 10
            } else {
                fraction
            };
        }
        let inner = UtcDateTime::new(
            year,
            month as u8,
            day as u8,
            hour as u8,
            minute as u8,
            second as u8,
            millisecond,
        )?;
        Some(VariableLengthTimestamp { inner, len: len as u8 })
    }

    /// The text of the timestamp, as it stands on the wire.
    pub fn trim(&self) -> (text: Vec<u8>)
        ensures
            text@ == timestamp_text(self@),
            text@.len() == self@.len,
    {
        proof {
            use_type_invariant(self);
            use_type_invariant(&self.inner);
        }
        text_of(&self.inner, self.len)
    }

    /// The length of the text.
    pub fn len(&self) -> (len: u8)
        ensures
            len == self@.len,
            self@.wf(),
    {
        proof {
            use_type_invariant(self);
            use_type_invariant(&self.inner);
        }
        self.len
    }
}

} // verus!
