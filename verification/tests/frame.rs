use mpqtt::crc::digest_crc;
use mpqtt::error::Error;
use mpqtt::frame::{decode_response, encode_request, RESPONSE_MARKER, TERMINATOR};

/// A well-formed response frame around `payload`.
fn make_response(payload: &[u8]) -> Vec<u8> {
    let crc = digest_crc(payload);
    let mut frame = Vec::new();
    frame.push(RESPONSE_MARKER);
    frame.extend_from_slice(payload);
    frame.push((crc >> 8) as u8);
    frame.push((crc & 0xFF) as u8);
    frame.push(TERMINATOR);
    frame
}

#[test]
fn test_encode_request_qpi() {
    // QPI checksummed big-endian: 0xBE 0xAC, then the carriage return.
    assert_eq!(encode_request(b"QPI"), b"QPI\xBE\xAC\x0D".to_vec());
}

#[test]
fn test_encode_request_qid() {
    assert_eq!(encode_request(b"QID"), b"QID\xD6\xEA\x0D".to_vec());
}

#[test]
fn test_encode_request_empty_payload() {
    // An empty payload still carries its checksum (the initial register
    // value) and the terminator.
    assert_eq!(encode_request(b""), vec![0x00, 0x00, TERMINATOR]);
}

#[test]
fn test_decode_response_payload() {
    let frame = make_response(b"PI1234");
    assert_eq!(frame, b"(PI1234\x1E\x09\x0D".to_vec());
    assert_eq!(decode_response(&frame), Ok(b"PI1234".to_vec()));
}

#[test]
fn test_decode_response_checksum_mismatch() {
    let mut frame = make_response(b"PI1234");
    let n = frame.len();
    frame[n - 2] ^= 0xFF;
    assert_eq!(decode_response(&frame), Err(Error::InvalidResponseCheckSum));
}

#[test]
fn test_decode_response_too_short() {
    // Anything below marker + two checksum bytes + terminator is a format
    // error, never a panic.
    assert_eq!(decode_response(b""), Err(Error::InvalidResponseFormat));
    assert_eq!(decode_response(b"\x0D"), Err(Error::InvalidResponseFormat));
    assert_eq!(decode_response(b"(\x0D"), Err(Error::InvalidResponseFormat));
    assert_eq!(decode_response(b"(a\x0D"), Err(Error::InvalidResponseFormat));
    let well_formed = make_response(b"PI1234");
    for keep in 0..4 {
        let truncated = &well_formed[..keep];
        assert_eq!(decode_response(truncated), Err(Error::InvalidResponseFormat));
    }
}

#[test]
fn test_decode_response_minimum_frame() {
    // Four bytes is the minimum viable frame: marker, checksum of the empty
    // payload, terminator.
    let frame = make_response(b"");
    assert_eq!(frame.len(), 4);
    assert_eq!(decode_response(&frame), Ok(Vec::new()));
}

#[test]
fn test_decode_response_detects_every_payload_bit_flip() {
    let payload = b"PI1234 5678";
    let frame = make_response(payload);
    for byte_index in 0..payload.len() {
        for bit in 0..8 {
            let mut corrupted = frame.clone();
            corrupted[1 + byte_index] ^= 1u8 << bit;
            assert_eq!(
                decode_response(&corrupted),
                Err(Error::InvalidResponseCheckSum),
                "flip of bit {} in payload byte {} was not detected",
                bit,
                byte_index
            );
        }
    }
}

#[test]
fn test_decode_response_marker_not_validated() {
    // The codec deliberately does not check the marker byte's value.
    let mut frame = make_response(b"PI1234");
    frame[0] = b'[';
    assert_eq!(decode_response(&frame), Ok(b"PI1234".to_vec()));
}

#[test]
fn test_request_response_round_trip() {
    // Encoding a request and framing the echoed payload as a response the
    // same way always decodes back to the original payload.
    for payload in [&b"QPI"[..], b"QMOD", b"Q", b"", b"QPGS0 12"] {
        let request = encode_request(payload);
        assert_eq!(&request[..payload.len()], payload);
        assert_eq!(request[request.len() - 1], TERMINATOR);
        let response = make_response(payload);
        assert_eq!(decode_response(&response), Ok(payload.to_vec()));
    }
}
