use byteorder::{BigEndian, ByteOrder};
use webrtc_benchmark::stun::parse_stun_response;
use webrtc_benchmark::turn::{
    build_allocate_request, parse_turn_response, TurnTally, ATTR_REQUESTED_TRANSPORT,
    ATTR_USERNAME, STUN_MAGIC_COOKIE, TRANSPORT_UDP, TURN_ALLOCATE_ERROR, TURN_ALLOCATE_REQUEST,
    TURN_ALLOCATE_RESPONSE,
};

#[test]
fn test_build_allocate_request_no_creds() {
    let txn_id = [0x42u8; 12];
    let pkt = build_allocate_request(&txn_id, None);

    assert_eq!(pkt.len(), 28);
    assert_eq!(BigEndian::read_u16(&pkt[0..2]), TURN_ALLOCATE_REQUEST);
    assert_eq!(BigEndian::read_u16(&pkt[2..4]), 8);
    assert_eq!(BigEndian::read_u32(&pkt[4..8]), STUN_MAGIC_COOKIE);
    assert_eq!(&pkt[8..20], &txn_id);
    assert_eq!(BigEndian::read_u16(&pkt[20..22]), ATTR_REQUESTED_TRANSPORT);
    assert_eq!(BigEndian::read_u16(&pkt[22..24]), 4);
    assert_eq!(pkt[24], TRANSPORT_UDP);
}

#[test]
fn test_build_allocate_request_with_creds() {
    let txn_id = [0x01u8; 12];
    let creds = ("testuser".to_string(), "testpass".to_string());
    let pkt = build_allocate_request(&txn_id, Some(&creds));

    assert_eq!(pkt.len(), 40);
    let username_attr_type = BigEndian::read_u16(&pkt[28..30]);
    assert_eq!(username_attr_type, ATTR_USERNAME);
    let username_len = BigEndian::read_u16(&pkt[30..32]) as usize;
    assert_eq!(username_len, 8);
    assert_eq!(&pkt[32..40], b"testuser");
}

#[test]
fn test_parse_turn_response_valid() {
    let txn_id = [0xBB; 12];
    let mut buf = [0u8; 20];
    BigEndian::write_u16(&mut buf[0..2], TURN_ALLOCATE_ERROR);
    BigEndian::write_u16(&mut buf[2..4], 0);
    BigEndian::write_u32(&mut buf[4..8], STUN_MAGIC_COOKIE);
    buf[8..20].copy_from_slice(&txn_id);

    let result = parse_turn_response(&buf);
    assert!(result.is_ok());
    let (msg_type, parsed_txn) = result.unwrap();
    assert_eq!(msg_type, TURN_ALLOCATE_ERROR);
    assert_eq!(parsed_txn, txn_id);
}

#[test]
fn test_parse_turn_response_bad_cookie() {
    let mut buf = [0u8; 20];
    BigEndian::write_u16(&mut buf[0..2], TURN_ALLOCATE_RESPONSE);
    BigEndian::write_u32(&mut buf[4..8], 0x00000000);

    assert!(parse_turn_response(&buf).is_err());
}

#[test]
fn allocate_request_exact_bytes_no_creds() {
    let txn = [0xEEu8; 12];
    let pkt = build_allocate_request(&txn, None);
    let mut expected = vec![0x00, 0x03, 0x00, 0x08, 0x21, 0x12, 0xA4, 0x42];
    expected.extend_from_slice(&txn);
    expected.extend_from_slice(&[0x00, 0x19, 0x00, 0x04, 17, 0, 0, 0]);
    assert_eq!(pkt, expected);
}

#[test]
fn allocate_request_username_padding() {
    let txn = [0x05u8; 12];
    // 5 bytes pad to 8; the length field keeps 5.
    let creds = ("alice".to_string(), "secret".to_string());
    let pkt = build_allocate_request(&txn, Some(&creds));
    assert_eq!(pkt.len(), 20 + 8 + 4 + 8);
    assert_eq!(BigEndian::read_u16(&pkt[2..4]), 20);
    assert_eq!(BigEndian::read_u16(&pkt[30..32]), 5);
    assert_eq!(&pkt[32..37], b"alice");
    assert_eq!(&pkt[37..40], &[0, 0, 0]);

    // An empty username still has its attribute header.
    let creds = (String::new(), "x".to_string());
    let pkt = build_allocate_request(&txn, Some(&creds));
    assert_eq!(pkt.len(), 32);
    assert_eq!(BigEndian::read_u16(&pkt[2..4]), 12);
    assert_eq!(BigEndian::read_u16(&pkt[28..30]), ATTR_USERNAME);
    assert_eq!(BigEndian::read_u16(&pkt[30..32]), 0);

    // Multi-byte UTF-8 is measured in bytes.
    let creds = ("é".to_string(), "x".to_string());
    let pkt = build_allocate_request(&txn, Some(&creds));
    assert_eq!(BigEndian::read_u16(&pkt[30..32]), 2);
    assert_eq!(&pkt[32..34], "é".as_bytes());
    assert_eq!(pkt.len(), 36);
}

#[test]
fn allocate_request_is_well_formed() {
    let txn = [0x77u8; 12];
    for name in ["", "a", "ab", "abc", "abcd", "abcde", "a-much-longer-user-name"] {
        let creds = (name.to_string(), "pw".to_string());
        let pkt = build_allocate_request(&txn, Some(&creds));
        assert_eq!(pkt.len() % 4, 0);
        assert_eq!(BigEndian::read_u16(&pkt[2..4]) as usize, pkt.len() - 20);
        assert_eq!(
            parse_stun_response(&pkt),
            Ok((TURN_ALLOCATE_REQUEST, (pkt.len() - 20) as u16, txn))
        );
        assert_eq!(parse_turn_response(&pkt), Ok((TURN_ALLOCATE_REQUEST, txn)));
    }
}

#[test]
fn parse_turn_errors() {
    assert_eq!(parse_turn_response(&[0u8; 19]), Err("Response too short"));
    let mut buf = [0u8; 20];
    BigEndian::write_u32(&mut buf[4..8], STUN_MAGIC_COOKIE);
    buf[0] = 0x80;
    assert_eq!(
        parse_turn_response(&buf),
        Err("Invalid STUN message: top two bits not zero")
    );
    BigEndian::write_u32(&mut buf[4..8], 1);
    assert_eq!(parse_turn_response(&buf), Err("Invalid magic cookie"));
}

#[test]
fn parse_turn_ignores_declared_length() {
    let mut buf = [0u8; 20];
    BigEndian::write_u16(&mut buf[0..2], TURN_ALLOCATE_RESPONSE);
    BigEndian::write_u16(&mut buf[2..4], 100);
    BigEndian::write_u32(&mut buf[4..8], STUN_MAGIC_COOKIE);
    assert_eq!(parse_turn_response(&buf), Ok((TURN_ALLOCATE_RESPONSE, [0u8; 12])));
    assert!(parse_stun_response(&buf).is_err());
}

fn reply(msg_type: u16, txn: [u8; 12]) -> Vec<u8> {
    let mut buf = vec![0u8; 20];
    BigEndian::write_u16(&mut buf[0..2], msg_type);
    BigEndian::write_u32(&mut buf[4..8], STUN_MAGIC_COOKIE);
    buf[8..20].copy_from_slice(&txn);
    buf
}

#[test]
fn turn_tally_counts() {
    let txn = [3u8; 12];
    let other = [4u8; 12];
    let mut t = TurnTally::new();
    t.record(None, &txn);
    t.record(Some(&reply(TURN_ALLOCATE_RESPONSE, txn)), &txn);
    t.record(Some(&reply(TURN_ALLOCATE_ERROR, txn)), &txn);
    t.record(Some(&reply(TURN_ALLOCATE_ERROR, other)), &txn);
    t.record(Some(&reply(0x0101, txn)), &txn);
    t.record(Some(&[1u8, 2, 3]), &txn);
    assert_eq!(t.sent(), 6);
    assert_eq!(t.success(), 1);
    assert_eq!(t.errors(), 2);
    assert_eq!(t.responded(), 3);
    assert_eq!(t.timeouts(), 3);
    assert_eq!(t.report_counts(), (0, 3, 3));

    let mut total = TurnTally::new();
    total.merge(&t);
    total.merge(&t);
    assert_eq!(total.sent(), 12);
    assert_eq!(total.report_counts(), (0, 6, 6));
}
