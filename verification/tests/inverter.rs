use mpqtt::command::{Qid, Qpi};
use mpqtt::crc::digest_crc;
use mpqtt::error::Error;
use mpqtt::frame::{RESPONSE_MARKER, TERMINATOR};
use mpqtt::inverter::Inverter;
use mpqtt::transport::MemoryStream;

/// A well-formed response frame around `payload`.
fn make_response(payload: &[u8]) -> Vec<u8> {
    let crc = digest_crc(payload);
    let mut frame = Vec::new();
    frame.push(RESPONSE_MARKER);
    frame.extend_from_slice(payload);
    frame.push((crc >> 8) as u8);
    frame.push((crc & 0xFF) as u8);
    frame.push(TERMINATOR);
    frame
}

#[test]
fn test_query_protocol_id() {
    let mut inverter = Inverter::from_stream(MemoryStream::new(make_response(b"PI1234")));
    assert_eq!(inverter.query_protocol_id(), Ok(1234));
    assert!(inverter.is_idle());
    let stream = inverter.into_inner();
    assert_eq!(stream.sent(), &b"QPI\xBE\xAC\x0D".to_vec());
}

#[test]
fn test_query_serial_number() {
    let mut inverter = Inverter::from_stream(MemoryStream::new(make_response(b"123456789")));
    assert_eq!(inverter.query_serial_number(), Ok(123456789));
    let stream = inverter.into_inner();
    assert_eq!(stream.sent(), &b"QID\xD6\xEA\x0D".to_vec());
}

#[test]
fn test_execute_checksum_error_leaves_driver_idle() {
    // A response with corrupted checksum bytes fails with a checksum error;
    // the driver is idle again and has not read beyond the terminator it
    // already consumed.
    let mut script = make_response(b"PI1234");
    let n = script.len();
    script[n - 2] ^= 0x01;
    let trailing = b"(LEFTOVER";
    script.extend_from_slice(trailing);
    let mut inverter = Inverter::from_stream(MemoryStream::new(script));
    assert_eq!(inverter.execute(&Qpi), Err(Error::InvalidResponseCheckSum));
    assert!(inverter.is_idle());
    let stream = inverter.into_inner();
    assert_eq!(stream.pending_len(), trailing.len());
}

#[test]
fn test_execute_format_error_on_short_line() {
    let mut inverter = Inverter::from_stream(MemoryStream::new(b"(\x0D".to_vec()));
    assert_eq!(inverter.execute(&Qpi), Err(Error::InvalidResponseFormat));
    assert!(inverter.is_idle());
}

#[test]
fn test_execute_io_error_on_missing_terminator() {
    // The script ends before any terminator: an unexpected end of stream.
    let mut inverter = Inverter::from_stream(MemoryStream::new(b"(PI1234".to_vec()));
    assert_eq!(inverter.execute(&Qpi), Err(Error::Io));
    assert!(inverter.is_idle());
}

#[test]
fn test_execute_payload_error_on_wrong_tag() {
    let mut inverter = Inverter::from_stream(MemoryStream::new(make_response(b"XX1234")));
    assert_eq!(inverter.execute(&Qpi), Err(Error::InvalidResponsePayload));
}

#[test]
fn test_execute_parse_int_error_on_non_numeric() {
    let mut inverter = Inverter::from_stream(MemoryStream::new(make_response(b"PIabc")));
    assert_eq!(inverter.execute(&Qpi), Err(Error::ParseInt));
}

#[test]
fn test_execute_utf8_error_on_malformed_text() {
    let mut inverter = Inverter::from_stream(MemoryStream::new(make_response(b"PI\xFF1")));
    assert_eq!(inverter.execute(&Qpi), Err(Error::Utf8));
}

#[test]
fn test_execute_parse_int_error_on_non_ascii_text() {
    // Well-formed UTF-8 that is not a number fails numeric parsing, not
    // decoding.
    let mut inverter = Inverter::from_stream(MemoryStream::new(make_response(b"PI\xC3\xA9")));
    assert_eq!(inverter.execute(&Qpi), Err(Error::ParseInt));
}

#[test]
fn test_sequential_executes_do_not_interleave() {
    // Two sequential executes: the second request frame is written only
    // after the first response is fully decoded, so the two frames stand
    // whole and in order on the stream.
    let mut script = make_response(b"PI30");
    script.extend_from_slice(&make_response(b"98765"));
    let mut inverter = Inverter::from_stream(MemoryStream::new(script));
    assert_eq!(inverter.query_protocol_id(), Ok(30));
    assert!(inverter.is_idle());
    assert_eq!(inverter.query_serial_number(), Ok(98765));
    assert!(inverter.is_idle());
    let stream = inverter.into_inner();
    let mut expected = b"QPI\xBE\xAC\x0D".to_vec();
    expected.extend_from_slice(b"QID\xD6\xEA\x0D");
    assert_eq!(stream.sent(), &expected);
    assert_eq!(stream.pending_len(), 0);
}

#[test]
fn test_second_execute_proceeds_after_first_errors() {
    // An erroring exchange still returns the driver to idle, so the next
    // execute can run (the stream itself may of course be desynchronised;
    // resynchronising is the application's concern).
    let mut script = b"(\x0D".to_vec();
    script.extend_from_slice(&make_response(b"PI18"));
    let mut inverter = Inverter::from_stream(MemoryStream::new(script));
    assert_eq!(inverter.execute(&Qpi), Err(Error::InvalidResponseFormat));
    assert!(inverter.is_idle());
    assert_eq!(inverter.execute(&Qpi), Ok(18));
}

#[test]
fn test_execute_generic_over_command() {
    let mut inverter = Inverter::from_stream(MemoryStream::new(make_response(b"424242")));
    assert_eq!(inverter.execute(&Qid), Ok(424242));
}

#[test]
fn test_from_stream_and_into_inner_preserve_the_stream() {
    let stream = MemoryStream::new(b"abc".to_vec());
    let inverter: Inverter<MemoryStream> = Inverter::from_stream(stream);
    assert!(inverter.is_idle());
    let recovered = inverter.into_inner();
    assert_eq!(recovered.pending_len(), 3);
    assert_eq!(recovered.sent(), &Vec::<u8>::new());
}
