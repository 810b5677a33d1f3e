use legacy_ping::status::{parse_response, parse_status_payload, probe_bytes, IoErrorDetail,
    PingError, Status, Version};
use legacy_ping::text::IntParseError;
use legacy_ping::wide::encode_utf16_string;

#[test]
fn probe_is_fe_01() {
    assert_eq!(probe_bytes(), vec![0xFE, 0x01]);
}

#[test]
fn modern_payload_parses() {
    let payload = "\u{a7}1\u{0}127\u{0}1.8\u{0}A Minecraft Server\u{0}5\u{0}20";
    let status = parse_status_payload(payload).unwrap();
    assert_eq!(
        status,
        Status {
            dirty: true,
            version: Some(Version { protocol: 127, server: String::from("1.8") }),
            motd: String::from("A Minecraft Server"),
            online: (5, 20),
        }
    );
}

#[test]
fn legacy_payload_parses() {
    let payload = "A Minecraft Server\u{a7}3\u{a7}20";
    let status = parse_status_payload(payload).unwrap();
    assert_eq!(
        status,
        Status {
            dirty: true,
            version: None,
            motd: String::from("A Minecraft Server"),
            online: (3, 20),
        }
    );
}

#[test]
fn negative_protocol_parses() {
    let payload = "\u{a7}1\u{0}-1\u{0}x\u{0}m\u{0}0\u{0}0";
    let status = parse_status_payload(payload).unwrap();
    assert_eq!(status.version, Some(Version { protocol: -1, server: String::from("x") }));
}

#[test]
fn non_numeric_player_count_fails() {
    let payload = "A Minecraft Server\u{a7}three\u{a7}20";
    assert_eq!(
        parse_status_payload(payload),
        Err(PingError::ParseInt(IntParseError::InvalidDigit))
    );
    let modern = "\u{a7}1\u{0}127\u{0}1.8\u{0}motd\u{0}1.5\u{0}20";
    assert_eq!(
        parse_status_payload(modern),
        Err(PingError::ParseInt(IntParseError::InvalidDigit))
    );
}

#[test]
fn out_of_range_count_fails() {
    let payload = "m\u{a7}70000\u{a7}20";
    assert_eq!(
        parse_status_payload(payload),
        Err(PingError::ParseInt(IntParseError::PosOverflow))
    );
    let modern = "\u{a7}1\u{0}40000\u{0}s\u{0}m\u{0}5\u{0}20";
    assert_eq!(
        parse_status_payload(modern),
        Err(PingError::ParseInt(IntParseError::PosOverflow))
    );
    let negative = "\u{a7}1\u{0}-40000\u{0}s\u{0}m\u{0}5\u{0}20";
    assert_eq!(
        parse_status_payload(negative),
        Err(PingError::ParseInt(IntParseError::NegOverflow))
    );
}

#[test]
fn missing_fields_fail() {
    assert_eq!(
        parse_status_payload("\u{a7}1\u{0}127\u{0}1.8"),
        Err(PingError::ParseInt(IntParseError::Empty))
    );
    assert_eq!(
        parse_status_payload("just a motd"),
        Err(PingError::ParseInt(IntParseError::Empty))
    );
    assert_eq!(
        parse_status_payload(""),
        Err(PingError::ParseInt(IntParseError::Empty))
    );
}

#[test]
fn empty_numeric_field_fails() {
    assert_eq!(
        parse_status_payload("m\u{a7}\u{a7}20"),
        Err(PingError::ParseInt(IntParseError::Empty))
    );
}

#[test]
fn unexpected_packet_id_fails() {
    let payload = encode_utf16_string("A Minecraft Server\u{a7}3\u{a7}20");
    assert_eq!(parse_response(0x02, &payload), Err(PingError::UnexpectedPacketId(2)));
    assert_eq!(parse_response(0x02, &[]), Err(PingError::UnexpectedPacketId(2)));
    assert_eq!(parse_response(0x00, &[0xFF, 0xFF]), Err(PingError::UnexpectedPacketId(0)));
}

#[test]
fn full_response_parses() {
    let rest = encode_utf16_string("\u{a7}1\u{0}127\u{0}1.8\u{0}A Minecraft Server\u{0}5\u{0}20");
    let status = parse_response(0xFF, &rest).unwrap();
    assert_eq!(status.online, (5, 20));
    assert_eq!(status.version.as_ref().unwrap().protocol, 127);
    assert!(status.dirty);
}

#[test]
fn truncated_response_fails() {
    let mut rest = encode_utf16_string("A Minecraft Server\u{a7}3\u{a7}20");
    rest.pop();
    assert_eq!(
        parse_response(0xFF, &rest),
        Err(PingError::Io(IoErrorDetail::UnexpectedEof))
    );
    assert_eq!(
        parse_response(0xFF, &[]),
        Err(PingError::Io(IoErrorDetail::UnexpectedEof))
    );
}
