//! The inverter driver: the exclusive owner of one transport, sequencing
//! strictly half-duplex request/response exchanges.  The driver is Idle when
//! no command is in flight and AwaitingResponse between a completed write and
//! the decode of its response; it never queues a second command while one is
//! outstanding, so responses always belong to the immediately preceding
//! request.

use vstd::prelude::*;
use crate::command::{Command, Qid, Qpi, qid_parse, qid_request, qpi_parse, qpi_request};
use crate::error::Error;
use crate::crc::crc16;
use crate::frame::{RESPONSE_MARKER, TERMINATOR, crc_hi, crc_lo, decode_response, decode_spec, encode_request, request_frame_spec, response_frame_spec};
use crate::transport::{Transport, contains_byte, lemma_line_split_unique, line_split};

verus! {

/// The driver's logical state.
#[derive(Clone, Copy, Debug, PartialEq, Eq, Structural)]
pub enum DriverState {
    /// No command is in flight.
    Idle,
    /// A request frame has been written and its response not yet decoded.
    AwaitingResponse,
}

/// An inverter interface over one exclusively owned transport.
pub struct Inverter<T: Transport> {
    stream: T,
    state: DriverState,
}

impl<T: Transport> Inverter<T> {
    /// The driver's logical state.
    pub closed spec fn mode(&self) -> DriverState {
        self.state
    }

    /// All bytes the driver has handed to the stream.
    pub closed spec fn written(&self) -> Seq<u8> {
        self.stream.written()
    }

    /// The bytes pending on the stream's incoming side.
    pub closed spec fn pending(&self) -> Seq<u8> {
        self.stream.pending()
    }

    /// Whether the underlying stream is known never to fail.
    pub closed spec fn reliable(&self) -> bool {
        self.stream.reliable()
    }

    /// Create a new `Inverter` interface from an io stream.
    pub fn from_stream(inner: T) -> (r: Self)
        ensures
            r.mode() is Idle,
            r.written() == inner.written(),
            r.pending() == inner.pending(),
            r.reliable() == inner.reliable(),
    {
        Inverter { stream: inner, state: DriverState::Idle }
    }

    /// Return the io stream used to create the `Inverter` interface.
    pub fn into_inner(self) -> (r: T)
        ensures
            r.written() == self.written(),
            r.pending() == self.pending(),
            r.reliable() == self.reliable(),
    {
        self.stream
    }

    /// Whether no command is in flight.
    pub fn is_idle(&self) -> (r: bool)
        ensures
            r == (self.mode() is Idle),
    {
        match self.state {
            DriverState::Idle => true,
            DriverState::AwaitingResponse => false,
        }
    }

    /// Send a command: frame `cmd` as a request and write the whole frame to
    /// the stream.  On success the driver awaits the response; on a write
    /// failure (after which some prefix of the frame may have reached the
    /// stream) it stays idle.
    pub fn write_cmd(&mut self, cmd: &[u8]) -> (r: Result<(), Error>)
        requires
            old(self).mode() is Idle,
            cmd@.len() + 3 <= usize::MAX,
        ensures
            final(self).pending() == old(self).pending(),
            final(self).reliable() == old(self).reliable(),
            old(self).reliable() ==> r is Ok,
            match r {
                Ok(()) => {
                    &&& final(self).mode() is AwaitingResponse
                    &&& final(self).written() == old(self).written() + request_frame_spec(cmd@)
                },
                Err(e) => {
                    &&& e == Error::Io
                    &&& final(self).mode() is Idle
                    &&& exists|k: int|
                        0 <= k <= request_frame_spec(cmd@).len() && final(self).written() == old(
                            self,
                        ).written() + request_frame_spec(cmd@).subrange(0, k)
                },
            },
    {
        let frame = encode_request(cmd);
        match self.stream.write_all_bytes(frame.as_slice()) {
            Ok(()) => {
                self.state = DriverState::AwaitingResponse;
                Ok(())
            },
            Err(e) => {
                self.state = DriverState::Idle;
                Err(e)
            },
        }
    }

    /// Read a single response line.
    ///
    /// Bytes are considered on the same line until a carriage return is
    /// read.  The line is validated and its payload returned; whatever the
    /// outcome, the driver is idle afterwards, and on a decode error it has
    /// not read beyond the terminator already consumed.
    pub fn read_response_line(&mut self) -> (r: Result<Vec<u8>, Error>)
        requires
            old(self).mode() is AwaitingResponse,
        ensures
            final(self).mode() is Idle,
            final(self).written() == old(self).written(),
            final(self).reliable() == old(self).reliable(),
            old(self).reliable() && contains_byte(old(self).pending(), TERMINATOR) ==> r != Err::<
                Vec<u8>,
                Error,
            >(Error::Io),
            match r {
                Ok(p) => {
                    &&& contains_byte(old(self).pending(), TERMINATOR)
                    &&& final(self).pending() == line_split(old(self).pending(), TERMINATOR).1
                    &&& decode_spec(line_split(old(self).pending(), TERMINATOR).0) == Ok::<
                        Seq<u8>,
                        Error,
                    >(p@)
                },
                Err(e) => {
                    &&& (e == Error::Io || e == Error::InvalidResponseFormat || e
                        == Error::InvalidResponseCheckSum)
                    &&& e != Error::Io ==> {
                        &&& contains_byte(old(self).pending(), TERMINATOR)
                        &&& final(self).pending() == line_split(old(self).pending(), TERMINATOR).1
                        &&& decode_spec(line_split(old(self).pending(), TERMINATOR).0) == Err::<
                            Seq<u8>,
                            Error,
                        >(e)
                    }
                },
            },
    {
        self.state = DriverState::Idle;
        match self.stream.read_until(TERMINATOR) {
            Ok(line) => {
                proof {
                    lemma_line_split_unique(line@, self.stream.pending(), TERMINATOR);
                    assert(old(self).pending()[line@.len() - 1] == TERMINATOR);
                    assert(contains_byte(old(self).pending(), TERMINATOR));
                }
                decode_response(line.as_slice())
            },
            Err(e) => Err(e),
        }
    }

    /// Execute a command: render its request, frame and write it, flush the
    /// transport, read and validate one response line, and parse the payload
    /// into the command's typed result.  Exactly one write and one read; the
    /// first error is returned at once and the driver is idle again.
    pub fn execute<C: Command>(&mut self, cmd: &C) -> (r: Result<C::Output, Error>)
        requires
            old(self).mode() is Idle,
            cmd.request_spec().len() + 3 <= usize::MAX,
        ensures
            final(self).mode() is Idle,
            final(self).reliable() == old(self).reliable(),
            old(self).reliable() && contains_byte(old(self).pending(), TERMINATOR) ==> {
                &&& final(self).written() == old(self).written() + request_frame_spec(
                    cmd.request_spec(),
                )
                &&& final(self).pending() == line_split(old(self).pending(), TERMINATOR).1
                &&& r == exchange_outcome::<C::Output>(
                    old(self).pending(),
                    |payload: Seq<u8>| cmd.parse_spec(payload),
                )
            },
            exchange_post::<C::Output>(
                old(self).written(),
                old(self).pending(),
                final(self).written(),
                final(self).pending(),
                cmd.request_spec(),
                |payload: Seq<u8>| cmd.parse_spec(payload),
                r,
            ),
    {
        let ghost frame = request_frame_spec(cmd.request_spec());
        let request = cmd.render_request();
        match self.write_cmd(request.as_slice()) {
            Ok(()) => {},
            Err(e) => {
                proof {
                    let k = choose|k: int|
                        0 <= k <= frame.len() && self.written() == old(self).written()
                            + frame.subrange(0, k);
                    assert(self.written() == old(self).written() + frame.subrange(0, k));
                }
                return Err(e);
            },
        }
        proof {
            assert(frame.subrange(0, frame.len() as int) =~= frame);
        }
        match self.stream.flush() {
            Ok(()) => {},
            Err(e) => {
                self.state = DriverState::Idle;
                proof {
                    assert(self.written() == old(self).written() + frame.subrange(
                        0,
                        frame.len() as int,
                    ));
                }
                return Err(e);
            },
        }
        let payload = match self.read_response_line() {
            Ok(p) => p,
            Err(e) => {
                proof {
                    if e == Error::Io {
                        assert(self.written() == old(self).written() + frame.subrange(
                            0,
                            frame.len() as int,
                        ));
                    }
                }
                return Err(e);
            },
        };
        cmd.parse_response(payload.as_slice())
    }

    /// Query and return the device protocol id.
    pub fn query_protocol_id(&mut self) -> (r: Result<usize, Error>)
        requires
            old(self).mode() is Idle,
        ensures
            final(self).mode() is Idle,
            final(self).reliable() == old(self).reliable(),
            old(self).reliable() && contains_byte(old(self).pending(), TERMINATOR) ==> {
                &&& final(self).written() == old(self).written() + request_frame_spec(qpi_request())
                &&& final(self).pending() == line_split(old(self).pending(), TERMINATOR).1
                &&& r == exchange_outcome::<usize>(
                    old(self).pending(),
                    |payload: Seq<u8>| qpi_parse(payload),
                )
            },
            exchange_post::<usize>(
                old(self).written(),
                old(self).pending(),
                final(self).written(),
                final(self).pending(),
                qpi_request(),
                |payload: Seq<u8>| qpi_parse(payload),
                r,
            ),
    {
        self.execute(&Qpi)
    }

    /// Query and return the serial number of the inverter.
    pub fn query_serial_number(&mut self) -> (r: Result<usize, Error>)
        requires
            old(self).mode() is Idle,
        ensures
            final(self).mode() is Idle,
            final(self).reliable() == old(self).reliable(),
            old(self).reliable() && contains_byte(old(self).pending(), TERMINATOR) ==> {
                &&& final(self).written() == old(self).written() + request_frame_spec(qid_request())
                &&& final(self).pending() == line_split(old(self).pending(), TERMINATOR).1
                &&& r == exchange_outcome::<usize>(
                    old(self).pending(),
                    |payload: Seq<u8>| qid_parse(payload),
                )
            },
            exchange_post::<usize>(
                old(self).written(),
                old(self).pending(),
                final(self).written(),
                final(self).pending(),
                qid_request(),
                |payload: Seq<u8>| qid_parse(payload),
                r,
            ),
    {
        self.execute(&Qid)
    }
}

/// What a completed exchange returns, as a function of the pending bytes:
/// the first terminator-ended line is decoded, and on success its payload
/// is parsed by the command.
pub open spec fn exchange_outcome<Out>(
    pending0: Seq<u8>,
    parse: spec_fn(Seq<u8>) -> Result<Out, Error>,
) -> Result<Out, Error> {
    match decode_spec(line_split(pending0, TERMINATOR).0) {
        Ok(payload) => parse(payload),
        Err(e) => Err(e),
    }
}

/// What one request/response exchange guarantees, over the transport model.
///
/// On any outcome but a transport failure, the request frame was written
/// whole and exactly the first terminator-ended line of the pending bytes
/// was consumed; the result is then pinned by decoding that line and parsing
/// its payload.  On a transport failure, some prefix of the request frame
/// (possibly all of it) was written.
pub open spec fn exchange_post<Out>(
    written0: Seq<u8>,
    pending0: Seq<u8>,
    written1: Seq<u8>,
    pending1: Seq<u8>,
    request: Seq<u8>,
    parse: spec_fn(Seq<u8>) -> Result<Out, Error>,
    r: Result<Out, Error>,
) -> bool {
    let frame = request_frame_spec(request);
    let split = line_split(pending0, TERMINATOR);
    match r {
        Ok(out) => {
            &&& written1 == written0 + frame
            &&& contains_byte(pending0, TERMINATOR)
            &&& pending1 == split.1
            &&& decode_spec(split.0) matches Ok(payload) && parse(payload) == Ok::<Out, Error>(out)
        },
        Err(e) => {
            if e == Error::Io {
                exists|k: int|
                    0 <= k <= frame.len() && written1 == written0 + frame.subrange(0, k)
            } else {
                &&& written1 == written0 + frame
                &&& contains_byte(pending0, TERMINATOR)
                &&& pending1 == split.1
                &&& match decode_spec(split.0) {
                    Ok(payload) => parse(payload) == Err::<Out, Error>(e),
                    Err(de) => de == e,
                }
            }
        },
    }
}

/// A completed exchange is pinned: whenever an exchange did not fail on the
/// transport, and the first pending line decodes to a payload the command
/// parses successfully, the exchange returned exactly that parse result,
/// wrote exactly the request frame, and consumed exactly the line.
pub proof fn lemma_exchange_success<Out>(
    written0: Seq<u8>,
    pending0: Seq<u8>,
    written1: Seq<u8>,
    pending1: Seq<u8>,
    request: Seq<u8>,
    parse: spec_fn(Seq<u8>) -> Result<Out, Error>,
    r: Result<Out, Error>,
    v: Out,
)
    requires
        exchange_post::<Out>(written0, pending0, written1, pending1, request, parse, r),
        !(r matches Err(e) && e == Error::Io),
        decode_spec(line_split(pending0, TERMINATOR).0) matches Ok(payload) && parse(payload)
            == Ok::<Out, Error>(v),
    ensures
        r == Ok::<Out, Error>(v),
        written1 == written0 + request_frame_spec(request),
        pending1 == line_split(pending0, TERMINATOR).1,
{
}

/// A well-formed response frame whose payload and checksum bytes hold no
/// terminator is exactly the first line of the pending bytes it heads: the
/// split consumes the frame whole and leaves the rest.
pub proof fn lemma_response_frame_is_first_line(payload: Seq<u8>, rest: Seq<u8>)
    requires
        !contains_byte(payload, TERMINATOR),
        crc_hi(crc16(payload)) != TERMINATOR,
        crc_lo(crc16(payload)) != TERMINATOR,
    ensures
        contains_byte(response_frame_spec(payload) + rest, TERMINATOR),
        line_split(response_frame_spec(payload) + rest, TERMINATOR) == (
            response_frame_spec(payload),
            rest,
        ),
{
    let f = response_frame_spec(payload);
    assert(f.len() == payload.len() + 4);
    assert(f.last() == TERMINATOR);
    assert forall|k: int| 0 <= k < f.len() - 1 implies f[k] != TERMINATOR by {
        if k == 0 {
            assert(f[k] == RESPONSE_MARKER);
        } else if k <= payload.len() {
            assert(f[k] == payload[k - 1]);
        }
    }
    lemma_line_split_unique(f, rest, TERMINATOR);
    assert((f + rest)[f.len() - 1] == TERMINATOR);
}

/// Half-duplex sequencing: when one exchange appends its request frame to
/// the stream and the next exchange appends its own, the two frames stand
/// whole and in order on the stream, the second wholly after the first —
/// sequential executes never interleave their bytes.
pub proof fn lemma_sequential_executes_do_not_interleave(
    written0: Seq<u8>,
    frame1: Seq<u8>,
    frame2: Seq<u8>,
)
    ensures
        ((written0 + frame1) + frame2).subrange(
            written0.len() as int,
            written0.len() + frame1.len() as int,
        ) == frame1,
        ((written0 + frame1) + frame2).subrange(
            written0.len() + frame1.len() as int,
            written0.len() + frame1.len() + frame2.len() as int,
        ) == frame2,
{
    assert(((written0 + frame1) + frame2).subrange(
        written0.len() as int,
        written0.len() + frame1.len() as int,
    ) =~= frame1);
    assert(((written0 + frame1) + frame2).subrange(
        written0.len() + frame1.len() as int,
        written0.len() + frame1.len() + frame2.len() as int,
    ) =~= frame2);
}

} // verus!
