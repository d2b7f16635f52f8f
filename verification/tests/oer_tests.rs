use btp_codec::{
    extract_var_octet_string, predict_var_octet_string, predict_var_uint_size, BufOerExt, ErrorKind, MutBufOerExt,
    UtcDateTime, VariableLengthTimestamp,
};
use bytes::BytesMut;
use chrono::{DateTime, Datelike, TimeZone, Timelike, Utc};

const HIGH_BIT: u8 = 0x80;

const ZERO_LENGTH_VARSTR: &[u8] = &[0x00, 0x01, 0x02, 0x03, 0x04, 0x05, 0x06];
const ONE_BYTE_VARSTR: &[u8] = &[0x01, 0x01, 0x02, 0x03, 0x04, 0x05, 0x06];
const TWO_BYTE_VARSTR: &[u8] = &[0x02, 0x01, 0x02, 0x03, 0x04, 0x05, 0x06];
/// This buffer is an incorrectly-encoded VarString.
const LENGTH_TOO_HIGH_VARSTR: &[u8] = &[0x07, 0x01, 0x02, 0x03, 0x04, 0x05, 0x06];

// These buffers have their lengths encoded in multiple bytes.
fn size_128_varstr() -> Vec<u8> {
    let mut data = vec![0x81, 0x80];
    data.extend(&[0x00; 128][..]);
    data
}

fn size_5678_varstr() -> Vec<u8> {
    let mut data = vec![0x82, 0x16, 0x2e];
    data.extend(&[0x00; 5678][..]);
    data
}

fn utc_from_str(input: &str) -> DateTime<Utc> {
    let field = |from: usize, to: usize| input[from..to].parse::<u32>().unwrap();
    let fraction = &input[14..input.len() - 1];
    let millis = if fraction.is_empty() {
        0
    } else {
        let digits = &fraction[1..];
        digits.parse::<u32>().unwrap() * 10u32.pow(3 - digits.len() as u32)
    };
    Utc.with_ymd_and_hms(
        field(0, 4) as i32,
        field(4, 6),
        field(6, 8),
        field(8, 10),
        field(10, 12),
        field(12, 14),
    )
    .unwrap()
    .with_nanosecond(millis * 1_000_000)
    .unwrap()
}

fn to_chrono(moment: UtcDateTime) -> DateTime<Utc> {
    Utc.with_ymd_and_hms(
        moment.year() as i32,
        moment.month() as u32,
        moment.day() as u32,
        moment.hour() as u32,
        moment.minute() as u32,
        moment.second() as u32,
    )
    .unwrap()
    .with_nanosecond(moment.millisecond() as u32 * 1_000_000)
    .unwrap()
}

fn from_chrono(moment: DateTime<Utc>) -> UtcDateTime {
    UtcDateTime::new(
        moment.year() as u16,
        moment.month() as u8,
        moment.day() as u8,
        moment.hour() as u8,
        moment.minute() as u8,
        moment.second() as u8,
        (moment.nanosecond() / 1_000_000) as u16,
    )
    .unwrap()
}

#[test]
fn test_predict_var_octet_string() {
    let zeroes = &[0; 4096][..];
    let mut buffer: Vec<u8> = Vec::with_capacity(5000);
    for i in 0..4096 {
        buffer.clear();
        buffer.put_var_octet_string(&zeroes[..i]);
        assert_eq!(
            predict_var_octet_string(i),
            buffer.len(),
            "string_length={:?}",
            i,
        );
    }
}

#[test]
fn test_predict_var_uint_size() {
    assert_eq!(predict_var_uint_size(0), 1);
    assert_eq!(predict_var_uint_size(1), 1);
    assert_eq!(predict_var_uint_size(0xff), 1);
    assert_eq!(predict_var_uint_size(0xff + 1), 2);
    assert_eq!(predict_var_uint_size(u64::MAX - 1), 8);
    assert_eq!(predict_var_uint_size(u64::MAX), 8);
}

#[test]
fn test_extract_var_octet_string() {
    assert_eq!(
        extract_var_octet_string(BytesMut::from(TWO_BYTE_VARSTR), true).unwrap(),
        BytesMut::from(&TWO_BYTE_VARSTR[1..3]),
    );
    assert_eq!(
        extract_var_octet_string(BytesMut::new(), true)
            .unwrap_err()
            .kind(),
        ErrorKind::UnexpectedEof,
    );
    assert_eq!(
        extract_var_octet_string(BytesMut::from(LENGTH_TOO_HIGH_VARSTR), true)
            .unwrap_err()
            .kind(),
        ErrorKind::UnexpectedEof,
    );
}

#[test]
fn test_peek_var_octet_string() {
    let size_128 = size_128_varstr();
    let size_5678 = size_5678_varstr();
    let tests: &[(&[u8], &[u8])] = &[
        (&[0x00], &[]),
        (ZERO_LENGTH_VARSTR, &[]),
        (ONE_BYTE_VARSTR, &[0x01]),
        (TWO_BYTE_VARSTR, &[0x01, 0x02]),
        (&size_128, &[0; 128][..]),
        (&size_5678, &[0; 5678][..]),
    ];
    for (buffer, varstr) in tests {
        assert_eq!(
            (&buffer[..]).peek_var_octet_string(true).unwrap(),
            *varstr,
        );
    }

    assert_eq!(
        (&[][..]).peek_var_octet_string(true).unwrap_err().kind(),
        ErrorKind::UnexpectedEof,
    );
    assert_eq!(
        LENGTH_TOO_HIGH_VARSTR
            .peek_var_octet_string(true)
            .unwrap_err()
            .kind(),
        ErrorKind::UnexpectedEof,
    );
}

#[test]
fn test_skip() {
    let mut empty = &[][..];
    assert_eq!(empty.skip(1).unwrap_err().kind(), ErrorKind::UnexpectedEof,);

    let mut reader = &[0x01, 0x02, 0x03][..];
    assert!(reader.skip(2).is_ok());
    assert_eq!(reader, &[0x03]);
}

#[test]
fn test_skip_var_octet_string() {
    let size_128 = size_128_varstr();
    let size_5678 = size_5678_varstr();
    let tests: &[(Vec<u8>, usize)] = &[
        (ZERO_LENGTH_VARSTR.to_vec(), 1),
        (ONE_BYTE_VARSTR.to_vec(), 2),
        (TWO_BYTE_VARSTR.to_vec(), 3),
        (size_128.clone(), size_128.len()),
        (size_5678.clone(), size_5678.len()),
    ];
    for (buffer, offset) in tests {
        let mut reader = &buffer[..];
        assert!(reader.skip_var_octet_string(true).is_ok());
        assert_eq!(reader.len(), buffer.len() - *offset);
    }

    assert_eq!(
        (&[][..]).skip_var_octet_string(true).unwrap_err().kind(),
        ErrorKind::UnexpectedEof,
    );

    assert_eq!(
        (&LENGTH_TOO_HIGH_VARSTR[..])
            .skip_var_octet_string(true)
            .unwrap_err()
            .kind(),
        ErrorKind::UnexpectedEof,
    );
}

#[test]
fn read_too_big_var_octet_string_length() {
    // The length of the octet string fits in 9 bytes, which is too big.
    let mut too_big: &[u8] = &[HIGH_BIT | 0x09];
    assert_eq!(
        too_big
            .read_var_octet_string_length(true)
            .unwrap_err()
            .kind(),
        ErrorKind::InvalidData,
    );
}

#[test]
fn read_empty_octet_string() {
    let mut reader = &[0][..];
    let slice = reader.read_var_octet_string(true).unwrap();
    assert!(slice.is_empty());
}

#[test]
fn read_smaller_octet_string() {
    let mut two_bytes = &[0x01, 0xb0][..];
    assert_eq!(two_bytes.read_var_octet_string(true).unwrap(), &[0xb0]);
}

#[test]
fn read_longer_length_octet_string() {
    let mut larger = vec![0x82, 0x01, 0x00];
    let larger_string = [0xb0; 256];
    larger.extend(&larger_string);

    let mut reader = &larger[..];

    assert_eq!(
        reader.read_var_octet_string(true).unwrap(),
        &larger_string[..]
    );
}

#[test]
fn indefinite_len_octets() {
    let indefinite = HIGH_BIT | 0x00;

    let mut bytes = &[indefinite, 0x00, 0x01, 0x02][..];

    let e = bytes.read_var_octet_string_length(true).unwrap_err();

    assert_eq!(e.kind(), ErrorKind::InvalidData);
    assert_eq!("indefinite lengths are not allowed", e.to_string());
}

#[test]
fn way_too_long_octets_with_126_bytes_of_length() {
    // this would be quite the long string, not great for network programming
    let mut bytes = vec![HIGH_BIT | 126];
    bytes.extend(std::iter::repeat(0xff).take(125));
    bytes.push(1);

    let mut reader = &bytes[..];

    let e = reader.read_var_octet_string_length(true).unwrap_err();

    assert_eq!("length prefix too large", e.to_string());
}

#[test]
fn way_too_long_octets_with_9_bytes_of_length() {
    let mut bytes = vec![HIGH_BIT | 9];
    bytes.extend(std::iter::repeat(0xff).take(8));
    bytes.push(1);

    let mut reader = &bytes[..];

    let e = reader.read_var_octet_string_length(true).unwrap_err();

    assert_eq!("length prefix too large", e.to_string());
}

#[test]
fn max_len_octets() {
    let mut bytes = vec![HIGH_BIT | 4];
    bytes.extend(std::iter::repeat(0xff).take(4));

    // here 84 ff ff ff ff is used as a max usize (in 32-bit systems)

    let mut reader = &bytes[..];

    let len = reader.read_var_octet_string_length(true).unwrap();

    assert_eq!(u32::MAX, len as u32);
}

#[test]
fn test_read_var_uint() {
    let tests: &[(&[u8], u64, usize)] = &[
        (&[0x01, 0x00], 0, 2),
        (&[0x01, 0x09], 9, 2),
        (&[0x02, 0x01, 0x02], 0x0102, 3),
        (&[0x03, 0x01, 0x02, 0x03], 0x0001_0203, 4),
        (&[0x04, 0x01, 0x02, 0x03, 0x04], 0x0102_0304, 5),
        (&[0x05, 0x01, 0x02, 0x03, 0x04, 0x05], 0x0001_0203_0405, 6),
        (
            &[0x06, 0x01, 0x02, 0x03, 0x04, 0x05, 0x06],
            0x0102_0304_0506,
            7,
        ),
        (
            &[0x07, 0x01, 0x02, 0x03, 0x04, 0x05, 0x06, 0x07],
            0x0001_0203_0405_0607,
            8,
        ),
        (
            &[0x08, 0x01, 0x02, 0x03, 0x04, 0x05, 0x06, 0x07, 0x08],
            0x0102_0304_0506_0708,
            9,
        ),
    ];

    for strict in [true, false] {
        for (buffer, value, offset) in tests {
            let mut reader = &buffer[..];
            let uint = reader.read_var_uint(strict).unwrap();
            assert_eq!(uint, *value);
            assert_eq!(reader.len(), buffer.len() - *offset);
        }
    }

    let tests: &[(&[u8], ErrorKind)] = &[
        // VarUint's must have at least 1 byte.
        (&[0x00], ErrorKind::InvalidData),
        // Data must be present.
        (&[0x04], ErrorKind::UnexpectedEof),
        // Enough bytes must be present.
        (&[0x04, 0x01, 0x02, 0x03], ErrorKind::UnexpectedEof),
        // Too many bytes.
        (
            &[0x09, 0x01, 0x02, 0x03, 0x04, 0x05, 0x06, 0x07, 0x08, 0x09],
            ErrorKind::InvalidData,
        ),
    ];

    for (buffer, error_kind) in tests {
        assert_eq!(
            (&buffer[..]).read_var_uint(true).unwrap_err().kind(),
            *error_kind,
        );
    }
}

#[test]
fn peek_too_long_uint() {
    // a caller may accept larger than u64::MAX for a varuint: it peeks for the
    // length of the varuint, and uses a length > 8 to default to u64::MAX.
    let bytes: &[u8] = &[0x09u8, 0xff, 0xff, 0xff, 0xff, 0xff, 0xff, 0xff, 0xff, 0x01];

    let reader = bytes;
    assert_eq!(9, reader.peek_var_octet_string(true).unwrap().len());
}

#[test]
fn read_variable_length_timestamp() {
    let valid: &[(&[u8], &str)] = &[
        (b"20171224161432.279Z", "2017-12-24 16:14:32.279 UTC"),
        (b"20171224161432.27Z", "2017-12-24 16:14:32.270 UTC"),
        (b"20171224161432.2Z", "2017-12-24 16:14:32.200 UTC"),
        (b"20171224161432Z", "2017-12-24 16:14:32 UTC"),
    ];

    let mut buffer: Vec<u8> = Vec::with_capacity(1 + valid[0].0.len());

    for &(input, expected) in valid {
        buffer.clear();
        buffer.put_var_octet_string(input);
        let mut reader = &buffer[..];
        let ts = reader.read_variable_length_timestamp(true).unwrap();
        assert_eq!(ts.len() as usize, input.len());
        assert_eq!(expected, to_chrono(ts.inner()).to_string());
    }
}

#[test]
fn test_put_var_octet_string() {
    let long_varstr = &[0x00; 256][..];
    let long_buffer = {
        let mut buffer = vec![0x82, 0x01, 0x00];
        buffer.extend_from_slice(long_varstr);
        buffer
    };

    let tests: &[(&[u8], &[u8])] = &[
        // Write an empty string.
        (b"", b"\x00"),
        // Write a single byte.
        (b"\xb0", b"\x01\xb0"),
        (long_varstr, &long_buffer[..]),
    ];

    let mut writer: Vec<u8> = Vec::with_capacity(10);

    for (varstr, buffer) in tests {
        writer.clear();
        writer.put_var_octet_string(varstr);
        assert_eq!(&writer[..], *buffer);
    }
}

#[test]
fn test_put_var_uint() {
    let tests: &[(&[u8], u64, usize)] = &[
        (&[0x01, 0x00], 0, 2),
        (&[0x01, 0x09], 9, 2),
        (&[0x02, 0x01, 0x02], 0x0102, 3),
        (&[0x03, 0x01, 0x02, 0x03], 0x0001_0203, 4),
        (&[0x04, 0x01, 0x02, 0x03, 0x04], 0x0102_0304, 5),
        (&[0x05, 0x01, 0x02, 0x03, 0x04, 0x05], 0x0001_0203_0405, 6),
        (
            &[0x06, 0x01, 0x02, 0x03, 0x04, 0x05, 0x06],
            0x0102_0304_0506,
            7,
        ),
        (
            &[0x07, 0x01, 0x02, 0x03, 0x04, 0x05, 0x06, 0x07],
            0x0001_0203_0405_0607,
            8,
        ),
        (
            &[0x08, 0x01, 0x02, 0x03, 0x04, 0x05, 0x06, 0x07, 0x08],
            0x0102_0304_0506_0708,
            9,
        ),
    ];

    let mut writer: Vec<u8> = Vec::with_capacity(10);

    for (buffer, value, _offset) in tests {
        writer.clear();
        writer.put_var_uint(*value);
        assert_eq!(writer, *buffer);
    }
}

#[test]
fn test_put_variable_length_timestamp() {
    let tests: &[(&[u8], &str, u8)] = &[
        (b"20171224161432.279Z", "20171224161432.279Z", 19),
        (b"20171224161432.27Z", "20171224161432.27Z", 18),
        (b"20171224161432.2Z", "20171224161432.2Z", 17),
        (b"20171224161432Z", "20171224161432Z", 15),
    ];

    let mut write_buffer: Vec<u8> = Vec::with_capacity(1 + tests[0].0.len());

    for (data, input, octet_length) in tests {
        write_buffer.clear();

        write_buffer.put_variable_length_timestamp(
            &VariableLengthTimestamp::new(from_chrono(utc_from_str(input)), input.len() as u8)
                .unwrap(),
        );

        assert_eq!(data, &&write_buffer[1..]);
        assert_eq!(octet_length, &write_buffer[0]);
    }
}
