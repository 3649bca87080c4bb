//! The command capability.  A command knows the wire bytes of its request
//! and how to parse a validated response payload into its typed result; the
//! driver is generic over this interface, so the catalog of commands can grow
//! without touching the codec.

use vstd::prelude::*;
use crate::error::Error;
use crate::parse::{parse_usize_bytes, parse_usize_spec};
use vstd::slice::slice_subrange;

verus! {

/// One inverter command: a request renderer and a response-payload parser.
pub trait Command {
    /// The typed result of the command.
    type Output;

    /// The request payload bytes of the command: its mnemonic followed by
    /// any rendered argument bytes.
    spec fn request_spec(&self) -> Seq<u8>;

    /// What parsing a validated response payload yields.
    spec fn parse_spec(&self, payload: Seq<u8>) -> Result<Self::Output, Error>;

    /// Render the request payload bytes.
    fn render_request(&self) -> (r: Vec<u8>)
        ensures
            r@ == self.request_spec(),
    ;

    /// Parse a validated response payload into the typed result.
    fn parse_response(&self, payload: &[u8]) -> (r: Result<Self::Output, Error>)
        ensures
            r == self.parse_spec(payload@),
    ;
}

/// The request payload of the protocol-id query: the mnemonic `QPI`.
pub open spec fn qpi_request() -> Seq<u8> {
    seq![0x51u8, 0x50u8, 0x49u8]
}

/// What the protocol-id query makes of a response payload: the payload must
/// start with the tag `PI`, and the rest is the protocol id in decimal.
pub open spec fn qpi_parse(payload: Seq<u8>) -> Result<usize, Error> {
    if payload.len() < 2 {
        Err(Error::InvalidResponsePayload)
    } else if payload[0] != 0x50 || payload[1] != 0x49 {
        Err(Error::InvalidResponsePayload)
    } else {
        parse_usize_spec(payload.skip(2))
    }
}

/// The request payload of the serial-number query: the mnemonic `QID`.
pub open spec fn qid_request() -> Seq<u8> {
    seq![0x51u8, 0x49u8, 0x44u8]
}

/// What the serial-number query makes of a response payload: the whole
/// payload is the serial number in decimal.
pub open spec fn qid_parse(payload: Seq<u8>) -> Result<usize, Error> {
    parse_usize_spec(payload)
}

/// The protocol-id query, mnemonic `QPI`.
pub struct Qpi;

impl Command for Qpi {
    type Output = usize;

    open spec fn request_spec(&self) -> Seq<u8> {
        qpi_request()
    }

    open spec fn parse_spec(&self, payload: Seq<u8>) -> Result<usize, Error> {
        qpi_parse(payload)
    }

    fn render_request(&self) -> (r: Vec<u8>) {
        let mut v: Vec<u8> = Vec::new();
        v.push(0x51);
        v.push(0x50);
        v.push(0x49);
        proof {
            assert(v@ =~= qpi_request());
        }
        v
    }

    fn parse_response(&self, payload: &[u8]) -> (r: Result<usize, Error>) {
        let n = payload.len();
        if n < 2 {
            return Err(Error::InvalidResponsePayload);
        }
        if payload[0] != 0x50 || payload[1] != 0x49 {
            return Err(Error::InvalidResponsePayload);
        }
        let rest = slice_subrange(payload, 2, n);
        proof {
            assert(rest@ =~= payload@.skip(2));
        }
        parse_usize_bytes(rest)
    }
}

/// The serial-number query, mnemonic `QID`.
pub struct Qid;

impl Command for Qid {
    type Output = usize;

    open spec fn request_spec(&self) -> Seq<u8> {
        qid_request()
    }

    open spec fn parse_spec(&self, payload: Seq<u8>) -> Result<usize, Error> {
        qid_parse(payload)
    }

    fn render_request(&self) -> (r: Vec<u8>) {
        let mut v: Vec<u8> = Vec::new();
        v.push(0x51);
        v.push(0x49);
        v.push(0x44);
        proof {
            assert(v@ =~= qid_request());
        }
        v
    }

    fn parse_response(&self, payload: &[u8]) -> (r: Result<usize, Error>) {
        parse_usize_bytes(payload)
    }
}

} // verus!
