use nvdaremoteaudio_server::protocol::{
    encode_udp_audio_data, encode_udp_heartbeat, encode_udp_register, encode_udp_register_ack,
    escape_key_for_log, parse_udp_packet, validate_key, PayloadTooLarge, SessionId, UdpPacket,
    UdpPacketError, UdpPacketKind, MAX_KEY_LEN,
};
use nvdaremoteaudio_server::error::ErrorKind;

#[test]
fn accepts_valid_key() {
    assert!(validate_key("123ddd").is_ok());
    assert!(validate_key("stream_01.test-key").is_ok());
    assert!(validate_key("hello world").is_ok());
    assert!(validate_key("bad$key").is_ok());
    assert!(validate_key("NVDA remote 密码 $ 123").is_ok());
}

#[test]
fn rejects_invalid_key() {
    assert!(validate_key("").is_err());
    assert!(validate_key(&"a".repeat(MAX_KEY_LEN + 1)).is_err());
    assert!(validate_key("line\nbreak").is_err());
    assert!(validate_key("tab\tkey").is_err());
    assert!(validate_key("escape\u{1b}key").is_err());
}

#[test]
fn escapes_key_for_log_output() {
    assert_eq!(
        escape_key_for_log("line\nkey\t\u{1b}"),
        "line\\nkey\\t\\u{1b}"
    );
}

#[test]
fn session_id_round_trips_hex() {
    let session_id = SessionId::from_bytes([0x11; 16]);
    let hex = session_id.to_hex();
    assert_eq!(SessionId::from_hex(&hex).unwrap(), session_id);
}

#[test]
fn udp_register_round_trips() {
    let session_id = SessionId::from_bytes([0x22; 16]);
    let packet = encode_udp_register(session_id);
    assert_eq!(
        parse_udp_packet(&packet, 1200).unwrap(),
        UdpPacket::Register { session_id }
    );
}

#[test]
fn udp_heartbeat_round_trips() {
    let session_id = SessionId::from_bytes([0x33; 16]);
    let packet = encode_udp_heartbeat(session_id);
    assert_eq!(
        parse_udp_packet(&packet, 1200).unwrap(),
        UdpPacket::Heartbeat { session_id }
    );
}

#[test]
fn udp_audio_round_trips() {
    let session_id = SessionId::from_bytes([0x44; 16]);
    let packet = encode_udp_audio_data(session_id, 7, 99, b"abc", 1200).unwrap();

    assert_eq!(
        parse_udp_packet(&packet, 1200).unwrap(),
        UdpPacket::AudioData {
            session_id,
            sequence: 7,
            timestamp_ms: 99,
            payload: b"abc",
        }
    );
}

#[test]
fn udp_register_ack_round_trips() {
    let session_id = SessionId::from_bytes([0x55; 16]);
    let packet = encode_udp_register_ack(session_id);
    assert_eq!(
        parse_udp_packet(&packet, 1200).unwrap(),
        UdpPacket::RegisterAck { session_id }
    );
}

#[test]
fn key_messages_name_the_problem() {
    assert_eq!(validate_key(""), Err("key must not be empty"));
    assert_eq!(
        validate_key(&"a".repeat(MAX_KEY_LEN + 1)),
        Err("key is too long")
    );
    assert_eq!(
        validate_key("a\u{85}b"),
        Err("key contains control characters")
    );
    assert_eq!(validate_key(&"a".repeat(MAX_KEY_LEN)), Ok(()));
}

#[test]
fn key_length_counts_utf8_bytes() {
    assert_eq!(validate_key(&"密".repeat(42)), Ok(()));
    assert_eq!(validate_key(&"密".repeat(43)), Err("key is too long"));
}

#[test]
fn control_characters_are_those_of_unicode() {
    let mut code: u32 = 0;
    while code <= 0x10ffff {
        if let Some(ch) = char::from_u32(code) {
            let key = ch.to_string();
            assert_eq!(validate_key(&key).is_err(), ch.is_control(), "{:x}", code);
        }
        code += 1;
    }
}

#[test]
fn printable_keys_are_shown_as_they_are() {
    assert_eq!(escape_key_for_log("room 密码 1"), "room 密码 1");
    assert_eq!(escape_key_for_log("a\"b'c\\d"), "a\\\"b\\'c\\\\d");
}

#[test]
fn session_id_is_lowercase_hex_of_its_bytes() {
    let bytes = [
        0x00, 0x11, 0x22, 0x33, 0x44, 0x55, 0x66, 0x77, 0x88, 0x99, 0xaa, 0xbb, 0xcc, 0xdd, 0xee,
        0xff,
    ];
    let session_id = SessionId::from_bytes(bytes);
    assert_eq!(session_id.to_hex(), "00112233445566778899aabbccddeeff");
    assert_eq!(session_id.as_bytes(), &bytes);
    assert_eq!(session_id.number(), 0x00112233445566778899aabbccddeeff);
    assert_eq!(
        SessionId::from_hex("00112233445566778899AABBCCDDEEFF"),
        Ok(session_id)
    );
}

#[test]
fn session_id_rejects_what_is_not_hex() {
    assert_eq!(
        SessionId::from_hex("0011"),
        Err("session_id length is invalid")
    );
    assert_eq!(
        SessionId::from_hex("0g112233445566778899aabbccddeeff"),
        Err("session_id contains invalid hex")
    );
    assert_eq!(
        SessionId::from_hex(&"密密".repeat(6)),
        Err("session_id length is invalid")
    );
    assert_eq!(
        SessionId::from_hex("密密密密密密密密密密00"),
        Err("session_id contains invalid hex")
    );
}

#[test]
fn random_session_ids_differ() {
    let a = SessionId::random().unwrap();
    let b = SessionId::random().unwrap();
    assert_ne!(a, b);
    assert_ne!(a, SessionId::from_bytes([0; 16]));
}

#[test]
fn failed_draw_is_reported() {
    let drawn = SessionId::from_draw([7; 16], None).unwrap();
    assert_eq!(drawn, SessionId::from_bytes([7; 16]));
    let failed = SessionId::from_draw([7; 16], Some("no entropy".to_owned())).unwrap_err();
    assert_eq!(failed.kind, ErrorKind::Other);
    assert_eq!(failed.message, "failed to generate session id: no entropy");
}

#[test]
fn packets_have_the_documented_layout() {
    let session_id = SessionId::from_bytes([0xab; 16]);
    let packet = encode_udp_audio_data(session_id, 0x0102030405060708, 0x1112131415161718, b"xy", 2)
        .unwrap();
    let mut expected = b"RAS1".to_vec();
    expected.push(1);
    expected.push(4);
    expected.extend_from_slice(&[0xab; 16]);
    expected.extend_from_slice(&[1, 2, 3, 4, 5, 6, 7, 8]);
    expected.extend_from_slice(&[0x11, 0x12, 0x13, 0x14, 0x15, 0x16, 0x17, 0x18]);
    expected.extend_from_slice(b"xy");
    assert_eq!(packet, expected);
    assert_eq!(encode_udp_register(session_id).len(), 22);
    assert_eq!(encode_udp_register(session_id)[5], 1);
    assert_eq!(encode_udp_register_ack(session_id)[5], 2);
    assert_eq!(encode_udp_heartbeat(session_id)[5], 3);
}

#[test]
fn invalid_packets_are_told_apart() {
    let session_id = SessionId::from_bytes([9; 16]);
    let register = encode_udp_register(session_id);

    let error_of = |bytes: &[u8]| parse_udp_packet(bytes, 4).unwrap_err();

    assert_eq!(error_of(&[]), UdpPacketError::TooShort);
    assert_eq!(error_of(&register[..21]), UdpPacketError::TooShort);

    let mut changed = register.clone();
    changed[3] = b'2';
    assert_eq!(error_of(&changed), UdpPacketError::InvalidMagic);

    let mut changed = register.clone();
    changed[4] = 2;
    assert_eq!(error_of(&changed), UdpPacketError::UnsupportedVersion(2));
    assert_eq!(error_of(&changed).message(), "unsupported udp version: 2");

    let mut changed = register.clone();
    changed[5] = 200;
    assert_eq!(error_of(&changed), UdpPacketError::UnknownKind(200));
    assert_eq!(error_of(&changed).message(), "unknown udp packet kind: 200");

    for (kind, error, message) in [
        (1, UdpPacketError::RegisterSize, "udp register packet size is invalid"),
        (2, UdpPacketError::RegisterAckSize, "udp register ack packet size is invalid"),
        (3, UdpPacketError::HeartbeatSize, "udp heartbeat packet size is invalid"),
    ] {
        let mut changed = register.clone();
        changed[5] = kind;
        changed.push(0);
        assert_eq!(error_of(&changed), error);
        assert_eq!(error_of(&changed).message(), message);
    }

    let mut changed = register.clone();
    changed[5] = 4;
    assert_eq!(error_of(&changed), UdpPacketError::AudioTooShort);
    assert_eq!(error_of(&changed).message(), "udp audio packet is too short");

    let audio = encode_udp_audio_data(session_id, 1, 2, b"12345", 1200).unwrap();
    let excess = PayloadTooLarge { len: 5, limit: 4 };
    assert_eq!(error_of(&audio), UdpPacketError::PayloadTooLarge(excess));
    assert_eq!(
        error_of(&audio).message(),
        "udp audio payload exceeds limit: 5 > 4"
    );
    assert_eq!(error_of(&audio).to_io_error().kind, ErrorKind::InvalidData);
    assert_eq!(UdpPacketError::TooShort.message(), "udp packet is too short");
    assert_eq!(
        UdpPacketError::InvalidMagic.message(),
        "udp packet magic is invalid"
    );
}

#[test]
fn oversized_payload_is_not_encoded() {
    let session_id = SessionId::from_bytes([9; 16]);
    let error = encode_udp_audio_data(session_id, 1, 2, &[0; 1201], 1200).unwrap_err();
    assert_eq!(error, PayloadTooLarge { len: 1201, limit: 1200 });
    assert_eq!(error.to_io_error().kind, ErrorKind::InvalidInput);
    assert_eq!(
        error.to_io_error().message,
        "udp audio payload exceeds limit: 1201 > 1200"
    );
    assert!(encode_udp_audio_data(session_id, 1, 2, &[0; 1200], 1200).is_ok());
}

#[test]
fn empty_payload_is_a_packet() {
    let session_id = SessionId::from_bytes([9; 16]);
    let packet = encode_udp_audio_data(session_id, 0, u64::MAX, b"", 0).unwrap();
    assert_eq!(packet.len(), 38);
    assert_eq!(
        parse_udp_packet(&packet, 0).unwrap(),
        UdpPacket::AudioData { session_id, sequence: 0, timestamp_ms: u64::MAX, payload: b"" }
    );
}

#[test]
fn packet_kinds_have_their_numbers() {
    for (number, kind) in [
        (1, UdpPacketKind::Register),
        (2, UdpPacketKind::RegisterAck),
        (3, UdpPacketKind::Heartbeat),
        (4, UdpPacketKind::AudioData),
    ] {
        assert_eq!(UdpPacketKind::from_u8(number), Ok(kind));
        assert_eq!(kind.to_u8(), number);
    }
    assert_eq!(UdpPacketKind::from_u8(0), Err(UdpPacketError::UnknownKind(0)));
}

#[test]
fn session_id_comes_back_from_its_number() {
    let number: u128 = 0x0102_0304_0506_0708_090a_0b0c_0d0e_0f10;
    let id = SessionId::from_number(number);
    assert_eq!(id.as_bytes(), &[1, 2, 3, 4, 5, 6, 7, 8, 9, 10, 11, 12, 13, 14, 15, 16]);
    assert_eq!(id.number(), number);
    assert_eq!(SessionId::from_number(u128::MAX).as_bytes(), &[0xff; 16]);
    assert_eq!(SessionId::from_number(0).as_bytes(), &[0; 16]);
}
