use byteorder::{BigEndian, ByteOrder};
use webrtc_benchmark::stun::{
    build_binding_request, parse_stun_response, percentile_index, random_transaction_id,
    same_transaction_id, StunTally, STUN_BINDING_REQUEST, STUN_BINDING_RESPONSE,
    STUN_MAGIC_COOKIE,
};
use webrtc_benchmark::transaction::transaction_id_from_seed;

#[test]
fn test_build_binding_request_structure() {
    let txn_id: [u8; 12] = [1, 2, 3, 4, 5, 6, 7, 8, 9, 10, 11, 12];
    let pkt = build_binding_request(&txn_id);

    // Check message type: Binding Request (0x0001)
    assert_eq!(BigEndian::read_u16(&pkt[0..2]), STUN_BINDING_REQUEST);
    // Check message length: 0
    assert_eq!(BigEndian::read_u16(&pkt[2..4]), 0);
    // Check magic cookie
    assert_eq!(BigEndian::read_u32(&pkt[4..8]), STUN_MAGIC_COOKIE);
    // Check transaction ID
    assert_eq!(&pkt[8..20], &txn_id);
    // Top two bits must be zero
    assert_eq!(pkt[0] & 0xC0, 0);
}

#[test]
fn test_parse_valid_response() {
    let txn_id: [u8; 12] = [0xAA; 12];
    let mut buf = [0u8; 20];

    BigEndian::write_u16(&mut buf[0..2], STUN_BINDING_RESPONSE);
    BigEndian::write_u16(&mut buf[2..4], 0);
    BigEndian::write_u32(&mut buf[4..8], STUN_MAGIC_COOKIE);
    buf[8..20].copy_from_slice(&txn_id);

    let result = parse_stun_response(&buf);
    assert!(result.is_ok());
    let (msg_type, msg_len, parsed_txn) = result.unwrap();
    assert_eq!(msg_type, STUN_BINDING_RESPONSE);
    assert_eq!(msg_len, 0);
    assert_eq!(parsed_txn, txn_id);
}

#[test]
fn test_parse_invalid_cookie() {
    let mut buf = [0u8; 20];
    BigEndian::write_u16(&mut buf[0..2], STUN_BINDING_RESPONSE);
    BigEndian::write_u16(&mut buf[2..4], 0);
    BigEndian::write_u32(&mut buf[4..8], 0xDEADBEEF);

    let result = parse_stun_response(&buf);
    assert!(result.is_err());
    assert_eq!(result.unwrap_err(), "Invalid magic cookie");
}

#[test]
fn test_parse_too_short() {
    let buf = [0u8; 10];
    let result = parse_stun_response(&buf);
    assert!(result.is_err());
}

#[test]
fn test_random_transaction_id_unique() {
    let id1 = random_transaction_id();
    let id2 = random_transaction_id();
    assert_eq!(id1.len(), 12);
    assert_eq!(id2.len(), 12);
}

#[test]
fn binding_request_exact_bytes() {
    let txn: [u8; 12] = [0x10, 0x20, 0x30, 0x40, 0x50, 0x60, 0x70, 0x80, 0x90, 0xA0, 0xB0, 0xC0];
    let pkt = build_binding_request(&txn);
    let mut expected = vec![0x00, 0x01, 0x00, 0x00, 0x21, 0x12, 0xA4, 0x42];
    expected.extend_from_slice(&txn);
    assert_eq!(pkt.to_vec(), expected);
}

#[test]
fn binding_request_roundtrip() {
    let txn: [u8; 12] = [9, 8, 7, 6, 5, 4, 3, 2, 1, 0, 255, 128];
    let pkt = build_binding_request(&txn);
    assert_eq!(parse_stun_response(&pkt), Ok((STUN_BINDING_REQUEST, 0, txn)));
}

fn header(msg_type: u16, msg_len: u16, cookie: u32, txn: [u8; 12]) -> Vec<u8> {
    let mut buf = vec![0u8; 20];
    BigEndian::write_u16(&mut buf[0..2], msg_type);
    BigEndian::write_u16(&mut buf[2..4], msg_len);
    BigEndian::write_u32(&mut buf[4..8], cookie);
    buf[8..20].copy_from_slice(&txn);
    buf
}

#[test]
fn parse_error_too_short() {
    let buf = [0u8; 19];
    assert_eq!(parse_stun_response(&buf), Err("Response too short for STUN header"));
    assert_eq!(parse_stun_response(&[]), Err("Response too short for STUN header"));
}

#[test]
fn parse_error_top_bits() {
    let buf = header(0x4101, 0, STUN_MAGIC_COOKIE, [1; 12]);
    assert_eq!(
        parse_stun_response(&buf),
        Err("Invalid STUN message: top two bits not zero")
    );
    let buf = header(0x8001, 0, STUN_MAGIC_COOKIE, [1; 12]);
    assert!(parse_stun_response(&buf).is_err());
    // The cookie is checked before the top bits.
    let buf = header(0xC001, 0, 0, [1; 12]);
    assert_eq!(parse_stun_response(&buf), Err("Invalid magic cookie"));
}

#[test]
fn parse_error_declared_length() {
    let mut buf = header(STUN_BINDING_RESPONSE, 12, STUN_MAGIC_COOKIE, [3; 12]);
    buf.extend_from_slice(&[0u8; 11]);
    assert_eq!(
        parse_stun_response(&buf),
        Err("Buffer shorter than declared message length")
    );
    buf.push(0);
    assert_eq!(parse_stun_response(&buf), Ok((STUN_BINDING_RESPONSE, 12, [3; 12])));
    // Extra bytes beyond the declared length are accepted.
    buf.extend_from_slice(&[7u8; 5]);
    assert_eq!(parse_stun_response(&buf), Ok((STUN_BINDING_RESPONSE, 12, [3; 12])));
}

#[test]
fn parse_reads_big_endian_fields() {
    let buf = header(0x3F12, 0x0000, STUN_MAGIC_COOKIE, [0x55; 12]);
    let (t, l, _) = parse_stun_response(&buf).unwrap();
    assert_eq!(t, 0x3F12);
    assert_eq!(l, 0);
}

/// The xorshift generator written directly over a mutable state.
fn reference_id(seed: u128) -> [u8; 12] {
    let mut id = [0u8; 12];
    let mut state = seed;
    for byte in id.iter_mut() {
        state ^= state << 13;
        state ^= state >> 7;
        state ^= state << 17;
        *byte = (state & 0xFF) as u8;
    }
    id
}

#[test]
fn transaction_id_from_seed_matches_xorshift() {
    for seed in [0u128, 1, 42, 0xDEADBEEF, 1_700_000_000_123_456_789, u128::MAX, u128::MAX / 3] {
        assert_eq!(transaction_id_from_seed(seed), reference_id(seed));
    }
    assert_eq!(transaction_id_from_seed(0), [0u8; 12]);
    assert_ne!(transaction_id_from_seed(1), [0u8; 12]);
}

#[test]
fn same_transaction_id_compares_bytes() {
    let a = [1u8; 12];
    let mut b = [1u8; 12];
    assert!(same_transaction_id(&a, &b));
    b[11] = 2;
    assert!(!same_transaction_id(&a, &b));
}

#[test]
fn percentile_index_values() {
    assert_eq!(percentile_index(100, 50), 50);
    assert_eq!(percentile_index(100, 95), 95);
    assert_eq!(percentile_index(100, 99), 99);
    assert_eq!(percentile_index(1, 99), 0);
    assert_eq!(percentile_index(7, 50), 3);
    assert_eq!(percentile_index(0, 50), 0);
}

#[test]
fn stun_tally_counts_binding_responses() {
    let txn = [7u8; 12];
    let other = [8u8; 12];
    let mut t = StunTally::new();
    t.record(None);
    t.record(Some(&Ok((STUN_BINDING_RESPONSE, 0, txn))));
    // A Binding success Response with another transaction ID still counts.
    t.record(Some(&Ok((STUN_BINDING_RESPONSE, 0, other))));
    t.record(Some(&Ok((0x0111, 0, txn))));
    t.record(Some(&Err("Invalid magic cookie")));
    assert_eq!(t.sent(), 5);
    assert_eq!(t.received(), 2);
    assert_eq!(t.errors(), 3);

    let mut total = StunTally::new();
    total.merge(&t);
    total.merge(&t);
    assert_eq!(total.sent(), 10);
    assert_eq!(total.received(), 4);
    assert_eq!(total.errors(), 6);
}

#[test]
fn stun_tally_reply_to_built_request() {
    let txn = [0x31u8; 12];
    let mut reply = header(STUN_BINDING_RESPONSE, 0, STUN_MAGIC_COOKIE, txn);
    let mut t = StunTally::new();
    let parsed = parse_stun_response(&reply);
    t.record(Some(&parsed));
    assert_eq!(t.received(), 1);
    reply[4] = 0;
    let parsed = parse_stun_response(&reply);
    t.record(Some(&parsed));
    assert_eq!((t.sent(), t.received(), t.errors()), (2, 1, 1));
    let reply = header(STUN_BINDING_RESPONSE, 0, STUN_MAGIC_COOKIE, [0x32u8; 12]);
    let parsed = parse_stun_response(&reply);
    t.record(Some(&parsed));
    assert_eq!((t.sent(), t.received(), t.errors()), (3, 2, 1));
}
