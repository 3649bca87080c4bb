//! The frame codec.  A request frame is the payload, the payload's checksum
//! in big-endian order, and a carriage-return terminator.  A response frame
//! additionally starts with a single marker byte, which the codec does not
//! interpret: the device conventionally sends `(`, but only the length, the
//! checksum and the terminator are enforced.

use vstd::prelude::*;
use crate::crc::{crc16, lemma_crc16_detects_byte_change};
use crate::error::Error;
use vstd::slice::slice_subrange;

verus! {

/// The frame terminator: a carriage return.
pub const TERMINATOR: u8 = 0x0D;

/// The marker byte a device response conventionally starts with: `(`.
pub const RESPONSE_MARKER: u8 = 0x28;

/// The high byte of a checksum, sent first on the wire.
pub open spec fn crc_hi(c: u16) -> u8 {
    (c >> 8u16) as u8
}

/// The low byte of a checksum, sent second on the wire.
pub open spec fn crc_lo(c: u16) -> u8 {
    (c & 0xff) as u8
}

/// The wire bytes of a request whose payload is `payload`: the payload, its
/// checksum high byte first, and the terminator.
pub open spec fn request_frame_spec(payload: Seq<u8>) -> Seq<u8> {
    payload + seq![crc_hi(crc16(payload)), crc_lo(crc16(payload)), TERMINATOR]
}

/// The wire bytes of a well-formed response carrying `payload`: the marker,
/// the payload, its checksum high byte first, and the terminator.
pub open spec fn response_frame_spec(payload: Seq<u8>) -> Seq<u8> {
    seq![RESPONSE_MARKER] + payload
        + seq![crc_hi(crc16(payload)), crc_lo(crc16(payload)), TERMINATOR]
}

/// What decoding a response line yields.  A line shorter than the minimum
/// viable frame (marker, two checksum bytes, terminator) is a format error;
/// a line whose recomputed payload checksum does not equal the two carried
/// checksum bytes is a checksum error; otherwise the payload is returned.
pub open spec fn decode_spec(line: Seq<u8>) -> Result<Seq<u8>, Error> {
    if line.len() < 4 {
        Err(Error::InvalidResponseFormat)
    } else {
        let payload = line.subrange(1, line.len() - 3);
        let c = crc16(payload);
        if line[line.len() - 3] == crc_hi(c) && line[line.len() - 2] == crc_lo(c) {
            Ok(payload)
        } else {
            Err(Error::InvalidResponseCheckSum)
        }
    }
}

/// Build the wire bytes of a request around `payload`.
pub fn encode_request(payload: &[u8]) -> (r: Vec<u8>)
    requires
        payload@.len() + 3 <= usize::MAX,
    ensures
        r@ == request_frame_spec(payload@),
{
    let c = crate::crc::digest_crc(payload);
    let mut buf: Vec<u8> = Vec::with_capacity(payload.len() + 3);
    buf.extend_from_slice(payload);
    buf.push((c >> 8u16) as u8);
    buf.push((c & 0xff) as u8);
    buf.push(TERMINATOR);
    proof {
        assert(buf@ =~= request_frame_spec(payload@));
    }
    buf
}

/// Validate one response line and extract its payload, as `decode_spec`
/// prescribes.
pub fn decode_response(line: &[u8]) -> (r: Result<Vec<u8>, Error>)
    ensures
        match r {
            Ok(p) => decode_spec(line@) == Ok::<Seq<u8>, Error>(p@),
            Err(e) => decode_spec(line@) == Err::<Seq<u8>, Error>(e),
        },
{
    let n = line.len();
    if n < 4 {
        return Err(Error::InvalidResponseFormat);
    }
    let payload = slice_subrange(line, 1, n - 3);
    let c = crate::crc::digest_crc(payload);
    let hi = (c >> 8u16) as u8;
    let lo = (c & 0xff) as u8;
    if line[n - 3] == hi && line[n - 2] == lo {
        let mut out: Vec<u8> = Vec::new();
        out.extend_from_slice(payload);
        proof {
            assert(out@ =~= line@.subrange(1, line@.len() - 3));
        }
        Ok(out)
    } else {
        Err(Error::InvalidResponseCheckSum)
    }
}

/// Round trip: a well-formed response frame built over any payload decodes
/// back to exactly that payload.  In particular, for a command mnemonic and
/// argument bytes, the payload a mock responder echoes and checksums the
/// same way is accepted and returned unchanged.
pub proof fn lemma_round_trip(mnemonic: Seq<u8>, args: Seq<u8>)
    ensures
        decode_spec(response_frame_spec(mnemonic + args)) == Ok::<Seq<u8>, Error>(mnemonic + args),
{
    lemma_response_frame_decodes(mnemonic + args);
}

/// Any well-formed response frame decodes to its payload.
pub proof fn lemma_response_frame_decodes(payload: Seq<u8>)
    ensures
        decode_spec(response_frame_spec(payload)) == Ok::<Seq<u8>, Error>(payload),
{
    let f = response_frame_spec(payload);
    assert(f.len() == payload.len() + 4);
    assert(f.subrange(1, f.len() - 3) =~= payload);
    assert(f[f.len() - 3] == crc_hi(crc16(payload)));
    assert(f[f.len() - 2] == crc_lo(crc16(payload)));
}

/// Truncating any line below the minimum viable frame always yields a format
/// error, whatever the bytes hold.
pub proof fn lemma_short_line_is_format_error(line: Seq<u8>)
    requires
        line.len() < 4,
    ensures
        decode_spec(line) == Err::<Seq<u8>, Error>(Error::InvalidResponseFormat),
{
}

/// Two u16 values with the same high and low bytes are equal.
proof fn lemma_crc_bytes_injective(c1: u16, c2: u16)
    requires
        c1 != c2,
    ensures
        crc_hi(c1) != crc_hi(c2) || crc_lo(c1) != crc_lo(c2),
{
    assert(c1 != c2 ==> ((c1 >> 8u16) as u8) != ((c2 >> 8u16) as u8) || ((c1 & 0xff) as u8) != ((
    c2 & 0xff) as u8)) by (bit_vector);
}

/// `b` with its bit `j` flipped, counting from the least significant bit.
pub open spec fn flip_bit(b: u8, j: u8) -> u8 {
    b ^ (1u8 << j)
}

/// Flipping any single bit of the payload of a well-formed response frame
/// yields a checksum error: the CRC detects every single-bit corruption.
pub proof fn lemma_payload_bit_flip_is_checksum_error(payload: Seq<u8>, i: int, j: u8)
    requires
        0 <= i < payload.len(),
        j < 8,
    ensures
        decode_spec(response_frame_spec(payload).update(1 + i, flip_bit(payload[i], j)))
            == Err::<Seq<u8>, Error>(Error::InvalidResponseCheckSum),
{
    let orig = payload[i];
    let b = flip_bit(orig, j);
    assert(b != orig) by (bit_vector)
        requires
            b == orig ^ (1u8 << j),
            j < 8,
    ;
    let f = response_frame_spec(payload);
    let g = f.update(1 + i, b);
    let payload2 = payload.update(i, b);
    assert(g.len() == payload.len() + 4);
    assert(g.subrange(1, g.len() - 3) =~= payload2);
    lemma_crc16_detects_byte_change(payload, i, b);
    lemma_crc_bytes_injective(crc16(payload2), crc16(payload));
    assert(g[g.len() - 3] == crc_hi(crc16(payload)));
    assert(g[g.len() - 2] == crc_lo(crc16(payload)));
}

} // verus!
