use vstd::prelude::*;

use crate::error::SlpError;

verus! {

/// A byte source with a cursor.
///
/// `framed` marks a bounded sub-stream handed out by the packet framer: such a
/// reader yields exactly the bytes of one frame and then fails with
/// `FrameExhausted`, however much data the underlying source still holds.
/// Running out of bytes on a raw (unframed) source is `ShortRead` instead.
#[derive(Debug)]
pub struct Reader {
    bytes: Vec<u8>,
    pos: usize,
    framed: bool,
}

impl Reader {
    /// The cursor never points past the end of the buffer.
    pub closed spec fn wf(&self) -> bool {
        self.pos <= self.bytes@.len()
    }

    /// The bytes not yet consumed.
    pub closed spec fn remaining(&self) -> Seq<u8> {
        self.bytes@.skip(self.pos as int)
    }

    pub closed spec fn is_framed(&self) -> bool {
        self.framed
    }

    /// The error that reading past the end of this reader produces.
    pub open spec fn exhausted_err(&self) -> SlpError {
        if self.is_framed() {
            SlpError::FrameExhausted
        } else {
            SlpError::ShortRead
        }
    }

    /// Spec-level byte-exhaustion errors name `ShortRead`; a framed reader
    /// reports them as `FrameExhausted`.
    pub open spec fn map_short(&self, e: SlpError) -> SlpError {
        if e == SlpError::ShortRead {
            self.exhausted_err()
        } else {
            e
        }
    }

    /// A raw reader over a byte source.
    pub fn new(bytes: Vec<u8>) -> (r: Reader)
        ensures
            r.wf(),
            !r.is_framed(),
            r.remaining() == bytes@,
    {
        Reader { bytes, pos: 0, framed: false }
    }

    /// A bounded reader over exactly the bytes of one frame.
    pub fn frame(bytes: Vec<u8>) -> (r: Reader)
        ensures
            r.wf(),
            r.is_framed(),
            r.remaining() == bytes@,
    {
        Reader { bytes, pos: 0, framed: true }
    }

    /// How many bytes are still available.
    pub fn len(&self) -> (n: usize)
        requires
            self.wf(),
        ensures
            n == self.remaining().len(),
    {
        self.bytes.len() - self.pos
    }

    /// The exhaustion error of this reader, as a value.
    pub fn exhausted_error(&self) -> (e: SlpError)
        ensures
            e == self.exhausted_err(),
    {
        if self.framed {
            SlpError::FrameExhausted
        } else {
            SlpError::ShortRead
        }
    }

    /// Read one byte; fail if none is left.
    pub fn read_u8(&mut self) -> (res: Result<u8, SlpError>)
        requires
            old(self).wf(),
        ensures
            final(self).wf(),
            final(self).is_framed() == old(self).is_framed(),
            old(self).remaining().len() == 0 ==> {
                &&& res == Err::<u8, SlpError>(old(self).exhausted_err())
                &&& final(self).remaining() == old(self).remaining()
            },
            old(self).remaining().len() > 0 ==> {
                &&& res == Ok::<u8, SlpError>(old(self).remaining()[0])
                &&& final(self).remaining() == old(self).remaining().drop_first()
            },
    {
        if self.pos < self.bytes.len() {
            let b = self.bytes[self.pos];
            self.pos = self.pos + 1;
            proof {
                assert(self.remaining() =~= old(self).remaining().drop_first());
            }
            Ok(b)
        } else {
            Err(self.exhausted_error())
        }
    }

    /// Read exactly `n` bytes; fail (consuming nothing) if fewer are left.
    pub fn read_bytes(&mut self, n: usize) -> (res: Result<Vec<u8>, SlpError>)
        requires
            old(self).wf(),
        ensures
            final(self).wf(),
            final(self).is_framed() == old(self).is_framed(),
            old(self).remaining().len() >= n ==> {
                &&& res matches Ok(v) && v@ == old(self).remaining().take(n as int)
                &&& final(self).remaining() == old(self).remaining().skip(n as int)
            },
            old(self).remaining().len() < n ==> {
                &&& res == Err::<Vec<u8>, SlpError>(old(self).exhausted_err())
                &&& final(self).remaining() == old(self).remaining()
            },
    {
        let total = self.bytes.len();
        if n > total - self.pos {
            return Err(self.exhausted_error());
        }
        let mut out: Vec<u8> = Vec::new();
        let mut i: usize = 0;
        while i < n
            invariant
                self == old(self),
                self.wf(),
                i <= n,
                total == self.bytes@.len(),
                self.pos + n <= total,
                out@ == self.remaining().take(i as int),
            decreases n - i,
        {
            out.push(self.bytes[self.pos + i]);
            i = i + 1;
            proof {
                assert(out@ =~= self.remaining().take(i as int));
            }
        }
        self.pos = self.pos + n;
        proof {
            assert(self.remaining() =~= old(self).remaining().skip(n as int));
        }
        Ok(out)
    }
}

} // verus!
