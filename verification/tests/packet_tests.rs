use btp_codec::{
    BtpError, BtpMessage, BtpPacket, BtpResponse, ContentType, ProtocolData, Serializable,
    UtcDateTime, VariableLengthTimestamp,
};
use chrono::{DateTime, Datelike, Timelike, Utc};

fn from_hex(text: &str) -> Vec<u8> {
    let digits: Vec<u8> = text
        .bytes()
        .map(|b| match b {
            b'0'..=b'9' => b - b'0',
            b'a'..=b'f' => b - b'a' + 10,
            b'A'..=b'F' => b - b'A' + 10,
            _ => panic!("not a hex digit"),
        })
        .collect();
    digits.chunks(2).map(|pair| pair[0] * 16 + pair[1]).collect()
}

fn timestamp_of(moment: DateTime<Utc>, len: u8) -> VariableLengthTimestamp {
    let inner = UtcDateTime::new(
        moment.year() as u16,
        moment.month() as u8,
        moment.day() as u8,
        moment.hour() as u8,
        moment.minute() as u8,
        moment.second() as u8,
        (moment.nanosecond() / 1_000_000) as u16,
    )
    .unwrap();
    VariableLengthTimestamp::new(inner, len).unwrap()
}

fn message_1() -> BtpMessage {
    BtpMessage {
        request_id: 2,
        protocol_data: vec![
            ProtocolData {
                protocol_name: String::from("test"),
                content_type: ContentType::ApplicationOctetStream,
                data: from_hex("FFFF"),
            },
            ProtocolData {
                protocol_name: String::from("text"),
                content_type: ContentType::TextPlainUtf8,
                data: b"hello".to_vec(),
            },
        ],
    }
}

fn message_1_serialized() -> Vec<u8> {
    from_hex("060000000217010204746573740002ffff0474657874010568656c6c6f")
}

fn response_1() -> BtpResponse {
    BtpResponse {
        request_id: 129,
        protocol_data: vec![ProtocolData {
            protocol_name: String::from("some other protocol"),
            content_type: ContentType::ApplicationOctetStream,
            data: from_hex("AAAAAA"),
        }],
    }
}

fn response_1_serialized() -> Vec<u8> {
    from_hex("01000000811b010113736f6d65206f746865722070726f746f636f6c0003aaaaaa")
}

fn error_1() -> BtpError {
    BtpError {
        request_id: 501,
        code: String::from("T00"),
        name: String::from("UnreachableError"),
        triggered_at: timestamp_of(
            DateTime::parse_from_rfc3339("2018-08-31T02:53:24.899Z")
                .unwrap()
                .with_timezone(&Utc),
            19,
        ),
        data: String::from("oops"),
        protocol_data: vec![],
    }
}

fn error_1_serialized() -> Vec<u8> {
    from_hex("02000001f52f54303010556e726561636861626c654572726f721332303138303833313032353332342e3839395a046f6f70730100")
}

#[test]
fn packet_from_bytes() {
    assert_eq!(
        BtpMessage::from_bytes(&message_1_serialized(), true).unwrap(),
        message_1()
    );
    assert_eq!(
        BtpResponse::from_bytes(&response_1_serialized(), true).unwrap(),
        response_1()
    );
    assert_eq!(
        BtpError::from_bytes(&error_1_serialized(), true).unwrap(),
        error_1()
    );
}

#[test]
fn packet_to_bytes() {
    assert_eq!(message_1().to_bytes(), message_1_serialized());
    assert_eq!(response_1().to_bytes(), response_1_serialized());
    assert_eq!(error_1().to_bytes(), error_1_serialized());
}

#[test]
fn packet_of_any_kind_round_trips() {
    for bytes in [message_1_serialized(), response_1_serialized(), error_1_serialized()] {
        let parsed = BtpPacket::from_bytes(&bytes, true).unwrap();
        assert_eq!(parsed.to_bytes(), bytes);
    }
}
