//! The byte sink the encoder writes into: a destination that may accept
//! fewer bytes than offered on any single write, together with in-memory
//! sinks and a helper that retries until a whole buffer is accepted.

use vstd::prelude::*;
use vstd::slice::slice_subrange;

verus! {

/// Why a sink operation failed.
#[derive(Clone, Copy, Debug, PartialEq, Eq, Structural)]
pub enum IoError {
    /// The sink reported a failure of its own.
    Sink,
    /// The sink accepted no bytes although bytes remained to be written.
    WriteZero,
}

/// A writable byte destination. A single `write` may accept fewer bytes than
/// offered; `bytes` is the sequence of all bytes the sink has accepted so
/// far, in order.
pub trait ByteSink: Sized {
    /// All bytes the sink has accepted so far.
    spec fn bytes(&self) -> Seq<u8>;

    /// Offers `buf` to the sink. On success the sink accepts some prefix of
    /// `buf` and reports its length; on failure it accepts nothing.
    fn write(&mut self, buf: &[u8]) -> (r: Result<usize, IoError>)
        ensures
            match r {
                Ok(n) => n <= buf@.len() && final(self).bytes() == old(self).bytes()
                    + buf@.subrange(0, n as int),
                Err(_) => final(self).bytes() == old(self).bytes(),
            },
    ;

    /// Flushes whatever the sink buffers internally; accepts no new bytes.
    fn flush(&mut self) -> (r: Result<(), IoError>)
        ensures
            final(self).bytes() == old(self).bytes(),
    ;
}

/// Writes all of `buf` to `w`, re-offering the unwritten suffix after every
/// partially accepted write. Fails with `IoError::WriteZero` if the sink
/// accepts nothing while bytes remain; on failure the sink holds some prefix
/// of `buf` beyond what it held before.
pub fn write_all<W: ByteSink>(w: &mut W, buf: &[u8]) -> (r: Result<(), IoError>)
    ensures
        match r {
            Ok(_) => final(w).bytes() == old(w).bytes() + buf@,
            Err(_) => exists|j: int|
                0 <= j <= buf@.len() && final(w).bytes() == old(w).bytes() + buf@.subrange(0, j),
        },
{
    let ghost init: Seq<u8> = w.bytes();
    let mut i: usize = 0;
    while i < buf.len()
        invariant
            i <= buf.len(),
            init == old(w).bytes(),
            w.bytes() == init + buf@.subrange(0, i as int),
        decreases buf@.len() - i,
    {
        let rest: &[u8] = slice_subrange(buf, i, buf.len());
        match w.write(rest) {
            Ok(n) => {
                if n == 0 {
                    return Err(IoError::WriteZero);
                }
                proof {
                    assert(rest@.subrange(0, n as int) =~= buf@.subrange(i as int, i + n));
                    assert(init + buf@.subrange(0, i as int) + buf@.subrange(i as int, i + n)
                        =~= init + buf@.subrange(0, i + n));
                }
                i = i + n;
            }
            Err(e) => {
                return Err(e);
            }
        }
    }
    proof {
        assert(buf@.subrange(0, buf@.len() as int) =~= buf@);
    }
    Ok(())
}

/// An in-memory sink that accepts every byte offered to it.
pub struct VecSink {
    data: Vec<u8>,
}

impl VecSink {
    /// An empty sink.
    pub fn new() -> (r: VecSink)
        ensures
            r.bytes() == Seq::<u8>::empty(),
    {
        VecSink { data: Vec::new() }
    }

    /// Hands out everything the sink has accepted.
    pub fn into_vec(self) -> (r: Vec<u8>)
        ensures
            r@ == self.bytes(),
    {
        self.data
    }
}

impl ByteSink for VecSink {
    closed spec fn bytes(&self) -> Seq<u8> {
        self.data@
    }

    fn write(&mut self, buf: &[u8]) -> (r: Result<usize, IoError>) {
        let len: usize = buf.len();
        let mut i: usize = 0;
        while i < len
            invariant
                i <= len,
                len == buf@.len(),
                self.data@ == old(self).data@ + buf@.subrange(0, i as int),
            decreases len - i,
        {
            self.data.push(buf[i]);
            assert(buf@.subrange(0, i + 1) =~= buf@.subrange(0, i as int).push(buf@[i as int]));
            i = i + 1;
        }
        proof {
            assert(buf@.subrange(0, len as int) =~= buf@);
        }
        Ok(len)
    }

    fn flush(&mut self) -> (r: Result<(), IoError>) {
        Ok(())
    }
}

/// An in-memory sink that accepts at most `cap` bytes per write call; it
/// exercises the partial-write path of anything writing into it.
pub struct LimitedSink {
    data: Vec<u8>,
    cap: usize,
}

impl LimitedSink {
    /// An empty sink accepting at most `cap` bytes per call.
    pub fn new(cap: usize) -> (r: LimitedSink)
        ensures
            r.bytes() == Seq::<u8>::empty(),
    {
        LimitedSink { data: Vec::new(), cap }
    }

    /// Hands out everything the sink has accepted.
    pub fn into_vec(self) -> (r: Vec<u8>)
        ensures
            r@ == self.bytes(),
    {
        self.data
    }
}

impl ByteSink for LimitedSink {
    closed spec fn bytes(&self) -> Seq<u8> {
        self.data@
    }

    fn write(&mut self, buf: &[u8]) -> (r: Result<usize, IoError>) {
        let len: usize = if buf.len() < self.cap {
            buf.len()
        } else {
            self.cap
        };
        let mut i: usize = 0;
        while i < len
            invariant
                i <= len,
                len <= buf@.len(),
                self.cap == old(self).cap,
                self.data@ == old(self).data@ + buf@.subrange(0, i as int),
            decreases len - i,
        {
            self.data.push(buf[i]);
            assert(buf@.subrange(0, i + 1) =~= buf@.subrange(0, i as int).push(buf@[i as int]));
            i = i + 1;
        }
        Ok(len)
    }

    fn flush(&mut self) -> (r: Result<(), IoError>) {
        Ok(())
    }
}

/// A sink whose every operation fails; it exercises error propagation.
pub struct FailingSink {}

impl FailingSink {
    /// A sink that will refuse everything.
    pub fn new() -> (r: FailingSink)
        ensures
            r.bytes() == Seq::<u8>::empty(),
    {
        FailingSink {}
    }
}

impl ByteSink for FailingSink {
    closed spec fn bytes(&self) -> Seq<u8> {
        Seq::<u8>::empty()
    }

    fn write(&mut self, _buf: &[u8]) -> (r: Result<usize, IoError>) {
        Err(IoError::Sink)
    }

    fn flush(&mut self) -> (r: Result<(), IoError>) {
        Err(IoError::Sink)
    }
}

} // verus!
