//! Byte sources and byte sinks.
//!
//! The copy engine and the workflows are generic over these traits.  A
//! [`ByteSource`] delivers a fixed stream of bytes chunk by chunk; a
//! [`ByteSink`] accepts bytes, possibly only a prefix of each request.  A
//! [`SeekSource`] additionally has random access to a fixed content, which
//! the bounded read adapter builds on.  [`MemSource`] and [`MemSink`] are
//! verified in-memory implementations; implementations over real files live
//! outside the library.

use vstd::prelude::*;

verus! {

/// Why an input/output operation failed.
#[derive(Debug)]
pub enum IoError {
    /// A seek computed an absolute position before the start of the stream.
    NegativeSeek,
    /// A seek computed an absolute position past the stream's limit.
    SeekPastEnd,
    /// The underlying device failed; the message describes how.
    Failed(String),
}

/// A positioned origin for a seek, mirroring the usual reader interface.
#[derive(Clone, Copy, Debug)]
pub enum SeekFrom {
    Start(u64),
    Current(i64),
    End(i64),
}

/// A finite stream of bytes delivered chunk by chunk.
///
/// Implementations are expected to absorb transient interruption themselves:
/// an error reported here is a real failure, not a request to retry.
pub trait ByteSource {
    /// The bytes the source will deliver from its current position on.
    spec fn stream(&self) -> Seq<u8>;

    /// Read at most `max` bytes.  An empty chunk means exactly that the
    /// stream is exhausted.
    fn read_chunk(&mut self, max: usize) -> (r: Result<Vec<u8>, IoError>)
        requires
            max >= 1,
        ensures
            match r {
                Ok(chunk) => {
                    &&& chunk@.len() <= max
                    &&& chunk@.len() <= old(self).stream().len()
                    &&& chunk@ == old(self).stream().take(chunk@.len() as int)
                    &&& final(self).stream() == old(self).stream().skip(chunk@.len() as int)
                    &&& (chunk@.len() == 0 <==> old(self).stream().len() == 0)
                },
                Err(_) => final(self).stream() == old(self).stream(),
            },
    ;
}

/// A sink that accepts bytes, possibly only a prefix of each request.
///
/// Implementations are expected to absorb transient interruption themselves:
/// an error reported here is a real failure, not a request to retry.
pub trait ByteSink {
    /// Every byte the sink has accepted since its creation, in order.
    spec fn sunk(&self) -> Seq<u8>;

    /// Whether the sink accepts every write whole and never fails — true of
    /// the discarding and digest-accumulating sinks, never assumed of a
    /// real device.  Callers handing an infallible sink to the copy engine
    /// are owed completion of everything that concerns it.
    spec fn infallible(&self) -> bool;

    /// Write a prefix of `buf`, returning how many bytes were accepted.  A
    /// sink accepts at least one byte of a nonempty request or fails; on
    /// failure nothing is accepted.  An infallible sink accepts the whole
    /// request.
    fn write(&mut self, buf: &[u8]) -> (r: Result<usize, IoError>)
        ensures
            match r {
                Ok(n) => {
                    &&& n <= buf@.len()
                    &&& (buf@.len() > 0 ==> n >= 1)
                    &&& final(self).sunk() == old(self).sunk() + buf@.take(n as int)
                },
                Err(_) => final(self).sunk() == old(self).sunk(),
            },
            old(self).infallible() ==> ({
                &&& final(self).infallible()
                &&& r matches Ok(n) && n == buf@.len()
            }),
    ;

    /// Force the accepted bytes to stable storage.
    fn sync(&mut self) -> (r: Result<(), IoError>)
        ensures
            final(self).sunk() == old(self).sunk(),
            old(self).infallible() ==> final(self).infallible() && r matches Ok(_),
    ;
}

/// A source with random access to a fixed content.  Positions may lie past
/// the end of the content; reads there deliver nothing.
pub trait SeekSource {
    /// The whole content backing the source.
    spec fn content(&self) -> Seq<u8>;

    /// The current read position.
    spec fn position(&self) -> u64;

    /// Report the current position.
    fn stream_position(&mut self) -> (r: Result<u64, IoError>)
        ensures
            final(self).content() == old(self).content(),
            final(self).position() == old(self).position(),
            r matches Ok(p) ==> p == final(self).position(),
    ;

    /// Read at most `max` bytes from the current position.  An empty chunk
    /// means exactly that the position is at or past the end of the content.
    fn read_at(&mut self, max: usize) -> (r: Result<Vec<u8>, IoError>)
        requires
            max >= 1,
        ensures
            final(self).content() == old(self).content(),
            match r {
                Ok(chunk) => {
                    &&& chunk@.len() <= max
                    &&& final(self).position() == old(self).position() + chunk@.len()
                    &&& if old(self).position() < old(self).content().len() {
                        &&& chunk@.len() >= 1
                        &&& old(self).position() + chunk@.len() <= old(self).content().len()
                        &&& chunk@ == old(self).content().subrange(
                            old(self).position() as int,
                            old(self).position() + chunk@.len(),
                        )
                    } else {
                        chunk@.len() == 0
                    }
                },
                Err(_) => final(self).position() == old(self).position(),
            },
    ;

    /// Reposition the source absolutely.
    fn seek_abs(&mut self, pos: u64) -> (r: Result<(), IoError>)
        ensures
            final(self).content() == old(self).content(),
            match r {
                Ok(_) => final(self).position() == pos,
                Err(_) => final(self).position() == old(self).position(),
            },
    ;
}

/// A byte source backed by memory.
pub struct MemSource {
    data: Vec<u8>,
    pos: usize,
}

impl MemSource {
    pub closed spec fn spec_data(&self) -> Seq<u8> {
        self.data@
    }

    pub closed spec fn spec_pos(&self) -> int {
        self.pos as int
    }

    pub fn new(data: Vec<u8>) -> (r: Self)
        ensures
            r.spec_data() == data@,
            r.spec_pos() == 0,
    {
        MemSource { data, pos: 0 }
    }

    /// Read at most `max` bytes at the current position, advancing it.
    fn read_some(&mut self, max: usize) -> (chunk: Vec<u8>)
        ensures
            final(self).spec_data() == old(self).spec_data(),
            chunk@.len() <= max,
            final(self).spec_pos() == old(self).spec_pos() + chunk@.len(),
            if old(self).spec_pos() < old(self).spec_data().len() {
                &&& old(self).spec_pos() + chunk@.len() <= old(self).spec_data().len()
                &&& (max >= 1 ==> chunk@.len() >= 1)
                &&& chunk@ == old(self).spec_data().subrange(
                    old(self).spec_pos(),
                    old(self).spec_pos() + chunk@.len(),
                )
            } else {
                chunk@.len() == 0
            },
    {
        let remaining = if self.pos < self.data.len() {
            self.data.len() - self.pos
        } else {
            0
        };
        let n = if max < remaining {
            max
        } else {
            remaining
        };
        let mut out: Vec<u8> = Vec::new();
        let mut j: usize = 0;
        while j < n
            invariant
                j <= n,
                self.data@.len() <= usize::MAX,
                n == 0 || self.pos + n <= self.data@.len(),
                out@.len() == j,
                n > 0 ==> out@ == self.data@.subrange(self.pos as int, self.pos + j),
            decreases n - j,
        {
            proof {
                assert(self.pos + j < self.data@.len());
            }
            out.push(self.data[self.pos + j]);
            proof {
                assert(out@ =~= self.data@.subrange(self.pos as int, self.pos + j + 1));
            }
            j = j + 1;
        }
        proof {
            if n == 0 && self.pos < self.data@.len() {
                assert(out@ =~= self.data@.subrange(self.pos as int, self.pos as int));
            }
        }
        self.pos = self.pos + n;
        out
    }
}

impl ByteSource for MemSource {
    closed spec fn stream(&self) -> Seq<u8> {
        if self.pos <= self.data@.len() {
            self.data@.skip(self.pos as int)
        } else {
            Seq::empty()
        }
    }

    fn read_chunk(&mut self, max: usize) -> (r: Result<Vec<u8>, IoError>) {
        let ghost pre = *self;
        let chunk = self.read_some(max);
        proof {
            assert(chunk@ =~= pre.stream().take(chunk@.len() as int));
            assert(self.stream() =~= pre.stream().skip(chunk@.len() as int));
        }
        Ok(chunk)
    }
}

impl SeekSource for MemSource {
    closed spec fn content(&self) -> Seq<u8> {
        self.data@
    }

    closed spec fn position(&self) -> u64 {
        self.pos as u64
    }

    fn stream_position(&mut self) -> (r: Result<u64, IoError>) {
        Ok(self.pos as u64)
    }

    fn read_at(&mut self, max: usize) -> (r: Result<Vec<u8>, IoError>) {
        Ok(self.read_some(max))
    }

    fn seek_abs(&mut self, pos: u64) -> (r: Result<(), IoError>) {
        if pos > usize::MAX as u64 {
            return Err(IoError::SeekPastEnd);
        }
        self.pos = pos as usize;
        Ok(())
    }
}

/// A byte sink backed by memory, modelling a writable file: bytes land at
/// the current position, a position past the end zero-fills the gap (a
/// sparse hole), and an optional capacity bounds how much the backing store
/// can hold, after which writes fail like a full device.
pub struct MemSink {
    data: Vec<u8>,
    pos: usize,
    capacity: Option<usize>,
    accepted: Ghost<Seq<u8>>,
}

impl MemSink {
    pub closed spec fn spec_data(&self) -> Seq<u8> {
        self.data@
    }

    pub closed spec fn spec_pos(&self) -> int {
        self.pos as int
    }

    pub fn new() -> (r: Self)
        ensures
            r.sunk() == Seq::<u8>::empty(),
            r.spec_data() == Seq::<u8>::empty(),
            r.spec_pos() == 0,
    {
        MemSink { data: Vec::new(), pos: 0, capacity: None, accepted: Ghost(Seq::empty()) }
    }

    /// A sink whose backing store already holds `data`, as a writable file
    /// opened without truncation does.
    pub fn from_data(data: Vec<u8>) -> (r: Self)
        ensures
            r.sunk() == Seq::<u8>::empty(),
            r.spec_data() == data@,
            r.spec_pos() == 0,
    {
        MemSink { data, pos: 0, capacity: None, accepted: Ghost(Seq::empty()) }
    }

    /// A sink that fails once its backing store would exceed `capacity`
    /// bytes, like a device running out of space.
    pub fn with_capacity(capacity: usize) -> (r: Self)
        ensures
            r.sunk() == Seq::<u8>::empty(),
            r.spec_data() == Seq::<u8>::empty(),
            r.spec_pos() == 0,
    {
        MemSink { data: Vec::new(), pos: 0, capacity: Some(capacity), accepted: Ghost(Seq::empty()) }
    }

    /// Reposition the sink, as a restore does before writing a sub-range.
    pub fn seek_to(&mut self, pos: u64) -> (r: Result<(), IoError>)
        ensures
            final(self).sunk() == old(self).sunk(),
            final(self).spec_data() == old(self).spec_data(),
            match r {
                Ok(_) => final(self).spec_pos() == pos,
                Err(_) => final(self).spec_pos() == old(self).spec_pos(),
            },
    {
        if pos > usize::MAX as u64 {
            return Err(IoError::SeekPastEnd);
        }
        self.pos = pos as usize;
        Ok(())
    }

    /// The bytes currently held by the backing store.
    pub fn data(&self) -> (r: &Vec<u8>)
        ensures
            r@ == self.spec_data(),
    {
        &self.data
    }

    /// Grow the backing store to `len` bytes, zero-filling, as a best-effort
    /// preallocation of a restore destination does.  Never shrinks; a length
    /// beyond what the machine can address leaves the store as it is.
    pub fn grow_to(&mut self, len: u64)
        ensures
            final(self).sunk() == old(self).sunk(),
            final(self).spec_pos() == old(self).spec_pos(),
            len <= old(self).spec_data().len() || len > usize::MAX ==> final(self).spec_data()
                == old(self).spec_data(),
            old(self).spec_data().len() < len <= usize::MAX ==> {
                &&& final(self).spec_data().len() == len
                &&& final(self).spec_data().take(old(self).spec_data().len() as int) == old(
                    self,
                ).spec_data()
                &&& forall|i: int|
                    old(self).spec_data().len() <= i < len ==> final(self).spec_data()[i] == 0
            },
    {
        if len > usize::MAX as u64 {
            return ;
        }
        let target = len as usize;
        if target > self.data.len() {
            let ghost pre = self.data@;
            self.data.resize(target, 0u8);
            proof {
                assert(self.data@.take(pre.len() as int) =~= pre);
                assert forall|i: int| pre.len() <= i < len implies self.data@[i] == 0u8 by {
                    assert(cloned::<u8>(0u8, self.data@[i]));
                }
            }
        }
    }
}

impl ByteSink for MemSink {
    closed spec fn sunk(&self) -> Seq<u8> {
        self.accepted@
    }

    /// A modelled device may run out of space: never assumed infallible.
    open spec fn infallible(&self) -> bool {
        false
    }

    fn write(&mut self, buf: &[u8]) -> (r: Result<usize, IoError>) {
        let limit = match self.capacity {
            Some(c) => c,
            None => usize::MAX,
        };
        if buf.len() == 0 {
            proof {
                assert(self.sunk() =~= self.sunk() + buf@.take(0));
            }
            return Ok(0);
        }
        if self.pos >= limit {
            return Err(IoError::Failed("no space left on the backing store".to_owned()));
        }
        let avail = limit - self.pos;
        let n = if buf.len() < avail {
            buf.len()
        } else {
            avail
        };
        if self.data.len() < self.pos {
            self.data.resize(self.pos, 0u8);
        }
        let mut j: usize = 0;
        while j < n
            invariant
                j <= n,
                n <= buf@.len(),
                self.pos + n <= usize::MAX,
                self.pos + j <= self.data@.len(),
                self.capacity == old(self).capacity,
                self.accepted == old(self).accepted,
                self.pos == old(self).pos,
            decreases n - j,
        {
            let at = self.pos + j;
            if at < self.data.len() {
                self.data[at] = buf[j];
            } else {
                self.data.push(buf[j]);
            }
            j = j + 1;
        }
        self.pos = self.pos + n;
        self.accepted = Ghost(self.accepted@ + buf@.take(n as int));
        Ok(n)
    }

    fn sync(&mut self) -> (r: Result<(), IoError>) {
        Ok(())
    }
}

} // verus!
