//! A verified codec for the request/response protocol spoken by solar
//! inverters over a raw byte stream.
//!
//! Outgoing commands are framed as payload bytes, a CRC-16/XMODEM checksum in
//! big-endian order, and a carriage-return terminator.  Incoming response
//! lines carry a leading marker byte, payload bytes, the same checksum, and
//! the terminator; the codec validates the checksum before handing the
//! payload to a command-specific parser.

pub mod crc;
pub mod error;
pub mod frame;
pub mod parse;
pub mod transport;
pub mod command;
pub mod inverter;
pub mod settings;
pub mod discovery;
