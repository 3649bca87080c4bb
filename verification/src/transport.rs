//! The transport abstraction: buffered sequential access to one duplex byte
//! stream, owned exclusively by the driver.  A transport is modelled by the
//! bytes written to the stream so far and the bytes pending on its incoming
//! side; the two operations are writing a whole buffer and reading up to and
//! including a delimiter byte.

use vstd::prelude::*;
use crate::error::Error;

verus! {

/// Whether `s` holds the byte `b` anywhere.
pub open spec fn contains_byte(s: Seq<u8>, b: u8) -> bool {
    exists|k: int| 0 <= k < s.len() && s[k] == b
}

/// Split `s` at the first occurrence of `delim`: the first component is
/// everything up to and including the delimiter, the second is the rest.
/// Meaningful when `contains_byte(s, delim)` holds.
pub open spec fn line_split(s: Seq<u8>, delim: u8) -> (Seq<u8>, Seq<u8>)
    decreases s.len(),
{
    if s.len() == 0 {
        (Seq::empty(), Seq::empty())
    } else if s[0] == delim {
        (seq![delim], s.drop_first())
    } else {
        let rest = line_split(s.drop_first(), delim);
        (seq![s[0]] + rest.0, rest.1)
    }
}

/// A delimiter-terminated prefix with no earlier delimiter is exactly what
/// `line_split` returns: the decomposition of a stream into its first line
/// and the remainder is unique.
pub proof fn lemma_line_split_unique(l: Seq<u8>, r: Seq<u8>, delim: u8)
    requires
        l.len() >= 1,
        l.last() == delim,
        forall|k: int| 0 <= k < l.len() - 1 ==> l[k] != delim,
    ensures
        line_split(l + r, delim) == (l, r),
    decreases l.len(),
{
    let s = l + r;
    assert(s[0] == l[0]);
    if l.len() == 1 {
        assert(s[0] == delim);
        assert(seq![delim] =~= l);
        assert(s.drop_first() =~= r);
    } else {
        assert(l[0] != delim);
        assert(s.drop_first() =~= l.drop_first() + r);
        assert(l.drop_first().last() == delim);
        assert(forall|k: int| 0 <= k < l.drop_first().len() - 1 ==> l.drop_first()[k] != delim);
        lemma_line_split_unique(l.drop_first(), r, delim);
        assert(seq![l[0]] + l.drop_first() =~= l);
    }
}

/// A duplex byte stream with buffered access, as the driver sees it.  The
/// surrounding application supplies the implementation for a real device;
/// `MemoryStream` supplies one for tests and proofs.
pub trait Transport: Sized {
    /// All bytes handed to the outgoing side of the stream so far.
    /// Implementations written outside the verifier inherit the trivial
    /// model; verified implementations override it.
    open spec fn written(&self) -> Seq<u8> {
        Seq::empty()
    }

    /// The bytes pending on the incoming side, not yet consumed.
    /// Implementations written outside the verifier inherit the trivial
    /// model; verified implementations override it.
    open spec fn pending(&self) -> Seq<u8> {
        Seq::empty()
    }

    /// Whether the stream is known never to fail: a reliable transport's
    /// writes and flushes succeed, and its reads succeed whenever the
    /// pending bytes hold the delimiter.  Implementations written outside
    /// the verifier inherit `false`; the in-memory stream is reliable.
    open spec fn reliable(&self) -> bool {
        false
    }

    /// Write the whole buffer to the stream.  On failure, some prefix of the
    /// buffer may have reached the stream; the incoming side is untouched.
    fn write_all_bytes(&mut self, data: &[u8]) -> (r: Result<(), Error>)
        ensures
            final(self).pending() == old(self).pending(),
            final(self).reliable() == old(self).reliable(),
            old(self).reliable() ==> r is Ok,
            match r {
                Ok(()) => final(self).written() == old(self).written() + data@,
                Err(e) => e == Error::Io && exists|k: int|
                    0 <= k <= data@.len() && final(self).written() == old(self).written()
                        + data@.subrange(0, k),
            },
    ;

    /// Flush buffered outgoing bytes down to the stream.  The model tracks
    /// logical bytes written, so flushing changes nothing it can see.
    fn flush(&mut self) -> (r: Result<(), Error>)
        ensures
            final(self).written() == old(self).written(),
            final(self).pending() == old(self).pending(),
            final(self).reliable() == old(self).reliable(),
            old(self).reliable() ==> r is Ok,
            r matches Err(e) ==> e == Error::Io,
    ;

    /// Read bytes up to and including the first `delim` byte.  On success the
    /// returned line is exactly the consumed prefix of the pending bytes, it
    /// ends with the delimiter, and holds no earlier delimiter.  On failure
    /// (including end of stream before a delimiter) nothing is promised about
    /// the pending bytes.  A reliable stream with the delimiter pending
    /// succeeds.
    fn read_until(&mut self, delim: u8) -> (r: Result<Vec<u8>, Error>)
        ensures
            final(self).written() == old(self).written(),
            final(self).reliable() == old(self).reliable(),
            old(self).reliable() && contains_byte(old(self).pending(), delim) ==> r is Ok,
            match r {
                Ok(line) => {
                    &&& line@.len() >= 1
                    &&& line@.last() == delim
                    &&& forall|k: int| 0 <= k < line@.len() - 1 ==> line@[k] != delim
                    &&& old(self).pending() == line@ + final(self).pending()
                },
                Err(e) => e == Error::Io,
            },
    ;
}

/// An in-memory duplex stream: bytes written are collected, bytes read come
/// from a fixed incoming script.  This is the test double for a serial
/// device.
pub struct MemoryStream {
    outgoing: Vec<u8>,
    incoming: Vec<u8>,
    cursor: usize,
}

impl MemoryStream {
    #[verifier::type_invariant]
    spec fn wf(self) -> bool {
        self.cursor <= self.incoming@.len()
    }

    /// A stream whose incoming side will replay `script`.
    pub fn new(script: Vec<u8>) -> (r: Self)
        ensures
            r.written() == Seq::<u8>::empty(),
            r.pending() == script@,
    {
        let r = MemoryStream { outgoing: Vec::new(), incoming: script, cursor: 0 };
        proof {
            assert(r.pending() =~= r.incoming@);
        }
        r
    }

    /// The bytes written to the stream so far.
    pub fn sent(&self) -> (r: &Vec<u8>)
        ensures
            r@ == self.written(),
    {
        &self.outgoing
    }

    /// How many incoming bytes have not been consumed yet.
    pub fn pending_len(&self) -> (r: usize)
        ensures
            r == self.pending().len(),
    {
        proof {
            use_type_invariant(&*self);
        }
        self.incoming.len() - self.cursor
    }
}

impl Transport for MemoryStream {
    closed spec fn written(&self) -> Seq<u8> {
        self.outgoing@
    }

    closed spec fn pending(&self) -> Seq<u8> {
        self.incoming@.skip(self.cursor as int)
    }

    open spec fn reliable(&self) -> bool {
        true
    }

    fn write_all_bytes(&mut self, data: &[u8]) -> (r: Result<(), Error>)
        ensures
            r is Ok,
    {
        proof {
            use_type_invariant(&*self);
        }
        let mut sent: Vec<u8> = Vec::new();
        core::mem::swap(&mut sent, &mut self.outgoing);
        sent.extend_from_slice(data);
        core::mem::swap(&mut sent, &mut self.outgoing);
        Ok(())
    }

    fn flush(&mut self) -> (r: Result<(), Error>)
        ensures
            r is Ok,
    {
        Ok(())
    }

    fn read_until(&mut self, delim: u8) -> (r: Result<Vec<u8>, Error>)
        ensures
            r is Ok <==> contains_byte(old(self).pending(), delim),
            r is Err ==> *final(self) == *old(self),
    {
        proof {
            use_type_invariant(&*self);
        }
        let n = self.incoming.len();
        let mut i: usize = self.cursor;
        let mut out: Vec<u8> = Vec::new();
        while i < n
            invariant
                *self == *old(self),
                self.wf(),
                n == self.incoming@.len(),
                self.cursor <= i <= n,
                out@ == self.incoming@.subrange(self.cursor as int, i as int),
                forall|k: int| self.cursor <= k < i ==> self.incoming@[k] != delim,
            decreases n - i,
        {
            let b = self.incoming[i];
            out.push(b);
            i = i + 1;
            if b == delim {
                proof {
                    assert(old(self).pending() =~= out@ + self.incoming@.skip(i as int));
                    assert(old(self).pending()[i - 1 - self.cursor] == delim);
                }
                self.cursor = i;
                return Ok(out);
            }
        }
        Err(Error::Io)
    }
}

} // verus!
