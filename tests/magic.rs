use magic_packet::magic::parse_hardware_address;
use magic_packet::{MagicError, MagicPacket};

#[test]
fn test_magic_packet_from_string() {
    let expected_packet: [u8; 102] = [
        0xFF, 0xFF, 0xFF, 0xFF, 0xFF, 0xFF, 0x00, 0x01, 0x02, 0x03, 0x04, 0x05, 0x00, 0x01,
        0x02, 0x03, 0x04, 0x05, 0x00, 0x01, 0x02, 0x03, 0x04, 0x05, 0x00, 0x01, 0x02, 0x03,
        0x04, 0x05, 0x00, 0x01, 0x02, 0x03, 0x04, 0x05, 0x00, 0x01, 0x02, 0x03, 0x04, 0x05,
        0x00, 0x01, 0x02, 0x03, 0x04, 0x05, 0x00, 0x01, 0x02, 0x03, 0x04, 0x05, 0x00, 0x01,
        0x02, 0x03, 0x04, 0x05, 0x00, 0x01, 0x02, 0x03, 0x04, 0x05, 0x00, 0x01, 0x02, 0x03,
        0x04, 0x05, 0x00, 0x01, 0x02, 0x03, 0x04, 0x05, 0x00, 0x01, 0x02, 0x03, 0x04, 0x05,
        0x00, 0x01, 0x02, 0x03, 0x04, 0x05, 0x00, 0x01, 0x02, 0x03, 0x04, 0x05, 0x00, 0x01,
        0x02, 0x03, 0x04, 0x05,
    ];

    let magic_packet: MagicPacket = "00:01:02:03:04:05".try_into().unwrap();

    assert_eq!(expected_packet, magic_packet.0);
}

#[test]
fn test_invalid_segment() {
    let result: Result<MagicPacket, MagicError> = "GG:00:00:00:00:00".try_into();

    match result {
        Err(MagicError::ParseInt(_)) => (),
        r => unreachable!("Should have been MagicError::ParseInt but was {:?}", r),
    }
}

#[test]
fn test_invalid_length() {
    let result: Result<MagicPacket, MagicError> = "00:00:00:00:00".try_into();

    match result {
        Err(MagicError::InvalidMac) => (),
        r => unreachable!("Should have been MagicError::InvalidMac but was {:?}", r),
    }
}

#[test]
fn new_repeats_address_after_prefix() {
    let mac = [0xDE, 0xAD, 0xBE, 0xEF, 0x01, 0x7F];
    let p = MagicPacket::new(mac);
    assert_eq!(p.0.len(), 102);
    assert_eq!(&p.0[..6], &[0xFF; 6]);
    for k in 0..16 {
        assert_eq!(&p.0[6 + 6 * k..12 + 6 * k], &mac);
    }
}

#[test]
fn parse_matches_new() {
    let parsed = MagicPacket::parse("00:01:02:03:04:05").unwrap();
    let built = MagicPacket::new([0x00, 0x01, 0x02, 0x03, 0x04, 0x05]);
    assert_eq!(parsed.0, built.0);
}

#[test]
fn parse_accepts_both_cases_and_plus_sign() {
    let parsed = MagicPacket::parse("aB:Cd:+eF:0:1:ff").unwrap();
    let built = MagicPacket::new([0xAB, 0xCD, 0xEF, 0x00, 0x01, 0xFF]);
    assert_eq!(parsed.0, built.0);
}

#[test]
fn parse_names_first_bad_segment() {
    assert_eq!(MagicPacket::parse("00:11:GG:33:44:55").unwrap_err(), MagicError::ParseInt(2));
    assert_eq!(MagicPacket::parse("00:11:22:33:44:").unwrap_err(), MagicError::ParseInt(5));
    assert_eq!(MagicPacket::parse("").unwrap_err(), MagicError::ParseInt(0));
    assert_eq!(MagicPacket::parse("100:11:22:33:44:55").unwrap_err(), MagicError::ParseInt(0));
    assert_eq!(MagicPacket::parse("00:11:22:33:44:55:-1").unwrap_err(), MagicError::ParseInt(6));
    assert_eq!(MagicPacket::parse("+:11:22:33:44:55").unwrap_err(), MagicError::ParseInt(0));
}

#[test]
fn parse_rejects_wrong_segment_count() {
    assert_eq!(MagicPacket::parse("00:11:22:33:44:55:66").unwrap_err(), MagicError::InvalidMac);
    assert_eq!(MagicPacket::parse("00").unwrap_err(), MagicError::InvalidMac);
}

#[test]
fn from_array_keeps_bytes() {
    let mut bytes = [0u8; 102];
    bytes[7] = 42;
    let p = MagicPacket::from(bytes);
    assert_eq!(p.0, bytes);
}

#[test]
fn parse_hardware_address_bytes() {
    assert_eq!(
        parse_hardware_address("80:ee:73:69:78:78"),
        Ok([0x80, 0xEE, 0x73, 0x69, 0x78, 0x78])
    );
    assert_eq!(parse_hardware_address("80:ee:73:69:78"), Err(MagicError::InvalidMac));
    assert_eq!(parse_hardware_address("80:ee:7x:69:78:78"), Err(MagicError::ParseInt(2)));
}
