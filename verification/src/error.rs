//! The closed set of failures the codec and driver can surface.  Every error
//! is returned to the caller at once; nothing is retried or downgraded.

use vstd::prelude::*;

verus! {

/// Inverter protocol errors.
#[derive(Clone, Copy, Debug, PartialEq, Eq, Structural)]
pub enum Error {
    /// The response frame is shorter than a marker byte, two checksum bytes
    /// and the terminator.
    InvalidResponseFormat,
    /// The checksum recomputed over the response payload does not match the
    /// checksum bytes carried by the frame.
    InvalidResponseCheckSum,
    /// The validated payload does not have the shape the command expects.
    InvalidResponsePayload,
    /// The payload bytes are not well-formed UTF-8 where the command
    /// expects text.
    Utf8,
    /// The underlying stream failed to read or write, including an
    /// unexpected end of stream.
    Io,
    /// A numeric field of the payload could not be parsed.
    ParseInt,
}

impl Error {
    /// A human-readable name for the error, one per variant.
    pub fn message(&self) -> (s: String)
        ensures
            *self is InvalidResponseFormat ==> s@ == "InvalidResponseFormat"@,
            *self is InvalidResponseCheckSum ==> s@ == "InvalidResponseCheckSum"@,
            *self is InvalidResponsePayload ==> s@ == "InvalidResponsePayload"@,
            *self is Utf8 ==> s@ == "Utf8"@,
            *self is Io ==> s@ == "Io"@,
            *self is ParseInt ==> s@ == "ParseInt"@,
    {
        match self {
            Error::InvalidResponseFormat => String::from_str("InvalidResponseFormat"),
            Error::InvalidResponseCheckSum => String::from_str("InvalidResponseCheckSum"),
            Error::InvalidResponsePayload => String::from_str("InvalidResponsePayload"),
            Error::Utf8 => String::from_str("Utf8"),
            Error::Io => String::from_str("Io"),
            Error::ParseInt => String::from_str("ParseInt"),
        }
    }
}

} // verus!
