use mpqtt::crc::digest_crc;

#[test]
fn test_digest_crc() {
    assert_eq!(digest_crc(b"QMOD"), 0x49C1);
    assert_eq!(digest_crc(b"QPIGS"), 0xB7A9);
    assert_eq!(digest_crc(b"QPIRI"), 0xF854);
    assert_eq!(digest_crc(b"QPIWS"), 0xB4DA);
}

#[test]
fn test_digest_crc_deterministic() {
    let data = b"QPIGS 17 42";
    let first = digest_crc(data);
    let second = digest_crc(data);
    let third = digest_crc(&data.to_vec());
    assert_eq!(first, second);
    assert_eq!(first, third);
}

#[test]
fn test_digest_crc_empty_is_initial_value() {
    assert_eq!(digest_crc(b""), 0x0000);
}

#[test]
fn test_digest_crc_single_bytes() {
    // One step of the register from zero: the byte enters the high half and
    // is shifted out over eight steps.
    assert_eq!(digest_crc(b"\x00"), 0x0000);
    assert_eq!(digest_crc(b"\x01"), 0x1021);
    assert_eq!(digest_crc(b"A"), 0x58E5);
}
