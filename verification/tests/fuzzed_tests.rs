use btp_codec::{
    put_protocol_data, read_protocol_data, BtpPacket, ErrorKind, Serializable,
};

fn fails_on_strict(data: &[u8], lenient_output: &[u8]) {
    BtpPacket::from_bytes(data, true).unwrap_err();
    // without strict, the input is not roundtrippable as it wastes bytes
    let out = BtpPacket::from_bytes(data, false).unwrap().to_bytes();
    assert_eq!(out, lenient_output);
}

fn fails_to_parse(data: &[u8]) {
    BtpPacket::from_bytes(data, true).unwrap_err();
    BtpPacket::from_bytes(data, false).unwrap_err();
}

fn roundtrip(data: &[u8]) {
    let parsed = BtpPacket::from_bytes(data, true).expect("failed to parse test case input");
    let out = parsed.to_bytes();
    assert_eq!(data, out, "{:?}", parsed);
}

#[test]
fn fuzz_0() {
    fails_to_parse(&[]);
}

#[test]
fn fuzz_1() {
    fails_to_parse(&[6, 0, 0, 1, 0, 1, 45]);
}

#[test]
fn fuzz_2() {
    fails_to_parse(&[1, 1, 0, 0, 4, 4, 0]);
}

#[test]
fn fuzz_3() {
    // 9 is the length of the next section but there are only two bytes
    fails_to_parse(&[1, 1, 65, 0, 0, 9, 1, 0]);
}

#[test]
fn fuzz_4() {
    // this one has garbage at the end
    fails_to_parse(&[1, 0, 0, 2, 0, 2, 0, 0, 250, 134]);
}

#[test]
fn fuzz_5() {
    // this one again has garbage at the end, but inside the protocol data
    fails_to_parse(&[1, 1, 0, 1, 0, 6, 1, 0, 6, 1, 6, 1, 1]);
}

#[test]
fn fuzz_6() {
    fails_to_parse(&[1, 1, 2, 217, 19, 50, 212]);
}

#[test]
fn fuzz_7() {
    fails_to_parse(&[2, 0, 0, 30, 30, 134, 30, 8, 36, 128, 96, 50]);
}

#[test]
fn fuzz_8() {
    // a declared length of 2214616063 bytes
    fails_to_parse(&[1, 1, 0, 6, 1, 132, 132, 0, 91, 255, 50]);
}

#[test]
fn fuzz_9() {
    fails_to_parse(&[6, 0, 0, 1, 1, 6, 1, 0]);
}

#[test]
fn fuzz_10() {
    // garbage in the protocol data
    fails_to_parse(&[6, 0, 0, 1, 1, 6, 1, 0, 253, 1, 1, 1]);
}

#[test]
fn fuzz_11() {
    roundtrip(&[6, 0, 0, 1, 1, 6, 1, 1, 0, 253, 1, 0]);
}

#[test]
fn fuzz_12() {
    // this has a length of length 128 | 1 which means single byte length, which doesn't
    // really make sense per rules
    fails_to_parse(&[6, 0, 0, 1, 1, 7, 129, 1, 1, 1, 6, 1, 0]);
}

#[test]
fn fuzz_13() {
    fails_on_strict(
        &[6, 0, 0, 0, 0, 6, 2, 0, 1, 0, 1, 0],
        &[6, 0, 0, 0, 0, 5, 1, 1, 0, 1, 0],
    );
}

#[test]
fn fuzz_14() {
    // The timestamp of this packet is 18 bytes of digits and white space that
    // end in `Z`: "4\t3\t\u{c}\t\t3\t\u{c}\t5\t3\t60Z". It is no timestamp, so
    // there is nothing that could be written back longer or shorter than it
    // was read.
    let data: &[u8] = &[
        // packettype error
        2,
        // request id
        0, 127, 1, 12,
        // length of the contents
        73,
        // code
        9, 9, 9,
        // name = length prefix + 9x9
        9, 9, 9, 9, 9, 9, 9, 9, 9, 9,
        // timestamp = length prefix (18) + text
        18, 52, 9, 51, 9, 12, 9, 9, 51, 9, 12, 9, 53, 9, 51, 9, 54, 48, 90,
        // data = length prefix + rest
        0,
        // protocol data
        1, 3, 1, 1, 0, 0, 1, 0, 6, 9, 9, 9, 9, 9, 9, 9, 9, 9, 9, 9, 9, 9, 9, 9, 79, 9, 9,
        9, 9, 9, 9, 9, 9, 9, 9, 9, 9, 9, 9, 51,
    ];
    for strict in [true, false] {
        let error = BtpPacket::from_bytes(data, strict).unwrap_err();
        assert_eq!(error.kind(), ErrorKind::Timestamp);
    }
}

#[test]
fn fuzz_14_1() {
    // protocol data from the previous test case
    let input: &[u8] = &[
        1, 3, 1, 1, 0, 0, 1, 0, 6, 9, 9, 9, 9, 9, 9, 9, 9, 9, 9, 9, 9, 9, 9, 9, 79, 9, 9, 9, 9,
        9, 9, 9, 9, 9, 9, 9, 9, 9, 9, 51,
    ];

    let mut cursor = input;

    let pd = read_protocol_data(&mut cursor, true).unwrap();

    let mut out: Vec<u8> = Vec::new();

    put_protocol_data(&mut out, &pd);

    assert_eq!(input, out);
}
