//! Small helpers around the byte-stream traits: a discarding sink, the
//! write-until-done loop, the bounded zero-extending read adapter, and
//! fresh-identifier generation.

use vstd::prelude::*;
use vstd::slice::slice_subrange;

use crate::io::{ByteSink, ByteSource, IoError, SeekFrom, SeekSource};

verus! {

/// A sink that accepts and discards everything.
pub struct NullBuffer {
    absorbed: Ghost<Seq<u8>>,
}

impl NullBuffer {
    pub fn new() -> (r: Self)
        ensures
            r.sunk() == Seq::<u8>::empty(),
    {
        NullBuffer { absorbed: Ghost(Seq::empty()) }
    }
}

impl ByteSink for NullBuffer {
    closed spec fn sunk(&self) -> Seq<u8> {
        self.absorbed@
    }

    /// Discarding cannot fail.
    open spec fn infallible(&self) -> bool {
        true
    }

    fn write(&mut self, buf: &[u8]) -> (r: Result<usize, IoError>) {
        let n = buf.len();
        self.absorbed = Ghost(self.absorbed@ + buf@);
        proof {
            assert(buf@.take(n as int) =~= buf@);
        }
        Ok(n)
    }

    fn sync(&mut self) -> (r: Result<(), IoError>) {
        Ok(())
    }
}

/// Write all of `buf` to `dst`, retrying short writes, counting only bytes
/// the sink actually accepted.  On failure the accepted prefix is reported
/// alongside the error.
pub fn try_write_all<W: ByteSink>(dst: &mut W, buf: &[u8]) -> (r: (usize, Result<(), IoError>))
    ensures
        r.0 <= buf@.len(),
        final(dst).sunk() == old(dst).sunk() + buf@.take(r.0 as int),
        r.1 matches Ok(_) ==> r.0 == buf@.len(),
        r.1 matches Err(_) ==> r.0 < buf@.len(),
        old(dst).infallible() ==> final(dst).infallible() && r.1 matches Ok(_),
{
    let mut written: usize = 0;
    proof {
        assert(old(dst).sunk() + buf@.take(0) =~= old(dst).sunk());
    }
    while written < buf.len()
        invariant
            written <= buf@.len(),
            dst.sunk() == old(dst).sunk() + buf@.take(written as int),
            old(dst).infallible() ==> dst.infallible(),
        decreases buf@.len() - written,
    {
        let tail = slice_subrange(buf, written, buf.len());
        match dst.write(tail) {
            Ok(n) => {
                proof {
                    assert(buf@.take(written as int) + tail@.take(n as int) =~= buf@.take(
                        written + n,
                    ));
                    assert(dst.sunk() == old(dst).sunk() + buf@.take(written as int) + tail@.take(
                        n as int,
                    ));
                }
                written = written + n;
            },
            Err(e) => {
                return (written, Err(e));
            },
        }
    }
    proof {
        assert(buf@.take(buf@.len() as int) =~= buf@);
    }
    (written, Ok(()))
}

/// The bytes that reading back `n` bytes of `content` from position `pos`
/// yields: the content itself where it physically exists, zero past its end.
pub open spec fn read_back(content: Seq<u8>, pos: int, n: int) -> Seq<u8> {
    Seq::new(
        (if n >= 0 {
            n
        } else {
            0
        }) as nat,
        |i: int|
            if pos + i < content.len() {
                content[pos + i]
            } else {
                0u8
            },
    )
}

/// Law: reading back `n` bytes presents exactly `n` bytes — the backing
/// content where it physically exists, zero everywhere past its end.  This
/// is the shape of everything the bounded adapter delivers: a backing file
/// shorter than the declared length reads as if zero-padded at its tail,
/// never as an error, and nothing past the declared length is delivered.
pub proof fn lemma_read_back_shape(content: Seq<u8>, pos: int, n: int)
    requires
        0 <= n,
    ensures
        read_back(content, pos, n).len() == n,
        forall|i: int|
            0 <= i < n && pos + i < content.len() ==> read_back(content, pos, n)[i] == content[pos
                + i],
        forall|i: int|
            0 <= i < n && pos + i >= content.len() ==> read_back(content, pos, n)[i] == 0,
{
}

/// Wraps a seekable byte source and presents exactly a declared number of
/// bytes from the position at construction on: reads never run past that
/// limit, and a backing source that is physically shorter than the declared
/// length is presented as if zero-padded at its tail.  After fabricating
/// zeros the backing source is re-synchronised before the next real read,
/// since its own cursor is no longer trusted.
pub struct TruncateReadStream<R: SeekSource> {
    inner: R,
    /// Absolute position in the backing source past which nothing is read.
    limit: u64,
    /// After a synthetic zero fill the backing cursor is no longer trusted:
    /// this then holds the adapter's own position, and the backing source is
    /// re-seeked to it before the next real read.  Otherwise the backing
    /// source's cursor is the adapter's position.
    extended_at: Option<u64>,
}

impl<R: SeekSource> TruncateReadStream<R> {
    pub closed spec fn spec_pos(&self) -> u64 {
        match self.extended_at {
            Some(p) => p,
            None => self.inner.position(),
        }
    }

    pub closed spec fn spec_limit(&self) -> u64 {
        self.limit
    }

    /// Whether a synthetic zero fill is pending, leaving the backing cursor
    /// untrusted until the next re-synchronisation.
    pub closed spec fn fill_pending(&self) -> bool {
        self.extended_at is Some
    }

    pub closed spec fn inner_content(&self) -> Seq<u8> {
        self.inner.content()
    }

    /// The absolute position a seek from `from` asks for.  A position from
    /// the end is relative to the declared limit, not the physical end of
    /// the backing source.
    pub open spec fn seek_target(&self, from: SeekFrom) -> int {
        match from {
            SeekFrom::Start(d) => d as int,
            SeekFrom::Current(d) => self.spec_pos() + d,
            SeekFrom::End(d) => self.spec_limit() + d,
        }
    }

    /// Bound `inner`, from its current position, to `limit` bytes.
    pub fn new(inner: R, limit: u64) -> (r: Result<Self, IoError>)
        requires
            inner.position() + limit <= u64::MAX,
        ensures
            match r {
                Ok(s) => {
                    &&& s.inner_content() == inner.content()
                    &&& s.spec_pos() == inner.position()
                    &&& s.spec_limit() == inner.position() + limit
                    &&& s.stream() == read_back(inner.content(), inner.position() as int, limit as int)
                    &&& !s.fill_pending()
                },
                Err(_) => true,
            },
    {
        let mut inner = inner;
        let pos = match inner.stream_position() {
            Ok(p) => p,
            Err(e) => {
                return Err(e);
            },
        };
        let s = TruncateReadStream { inner, limit: pos + limit, extended_at: None };
        proof {
            assert(s.stream() =~= read_back(s.inner.content(), pos as int, limit as int));
        }
        Ok(s)
    }

    /// Reposition the adapter.  A target before position zero and a target
    /// past the declared limit are rejected, each with its own error.
    pub fn seek(&mut self, from: SeekFrom) -> (r: Result<u64, IoError>)
        ensures
            final(self).spec_limit() == old(self).spec_limit(),
            final(self).inner_content() == old(self).inner_content(),
            match r {
                Ok(p) => {
                    &&& p == old(self).seek_target(from)
                    &&& 0 <= old(self).seek_target(from) <= old(self).spec_limit()
                    &&& final(self).spec_pos() == p
                    &&& !final(self).fill_pending()
                },
                Err(IoError::NegativeSeek) => {
                    &&& old(self).seek_target(from) < 0
                    &&& final(self).spec_pos() == old(self).spec_pos()
                },
                Err(IoError::SeekPastEnd) => {
                    &&& old(self).seek_target(from) > old(self).spec_limit()
                    &&& final(self).spec_pos() == old(self).spec_pos()
                },
                Err(IoError::Failed(_)) => {
                    &&& final(self).spec_pos() == old(self).spec_pos()
                    &&& ((from matches SeekFrom::Current(_) && !old(self).fill_pending()) || (0
                        <= old(self).seek_target(from) <= old(self).spec_limit()))
                },
            },
    {
        let t: i128 = match from {
            SeekFrom::Start(d) => d as i128,
            SeekFrom::Current(d) => {
                // Only a relative seek needs the current position.
                let pos: u64 = match self.extended_at {
                    Some(p) => p,
                    None => match self.inner.stream_position() {
                        Ok(p) => p,
                        Err(e) => {
                            let msg: String = match e {
                                IoError::Failed(m) => m,
                                _ => "the backing source failed to report its position".to_owned(),
                            };
                            return Err(IoError::Failed(msg));
                        },
                    },
                };
                pos as i128 + d as i128
            },
            SeekFrom::End(d) => self.limit as i128 + d as i128,
        };
        if t < 0 {
            return Err(IoError::NegativeSeek);
        }
        if t > self.limit as i128 {
            return Err(IoError::SeekPastEnd);
        }
        let target: u64 = t as u64;
        match self.inner.seek_abs(target) {
            Ok(_) => {
                self.extended_at = None;
                Ok(target)
            },
            Err(e) => {
                let msg: String = match e {
                    IoError::Failed(m) => m,
                    _ => "the backing source failed to reposition".to_owned(),
                };
                Err(IoError::Failed(msg))
            },
        }
    }
}

impl<R: SeekSource> ByteSource for TruncateReadStream<R> {
    /// What remains to be read: the backing content between the adapter's
    /// position and its limit, zero-extended past the physical end.
    closed spec fn stream(&self) -> Seq<u8> {
        read_back(self.inner.content(), self.spec_pos() as int, self.limit - self.spec_pos())
    }

    fn read_chunk(&mut self, max: usize) -> (r: Result<Vec<u8>, IoError>)
        ensures
            final(self).spec_limit() == old(self).spec_limit(),
            final(self).inner_content() == old(self).inner_content(),
            match r {
                Ok(chunk) => final(self).spec_pos() == old(self).spec_pos() + chunk@.len(),
                Err(_) => final(self).spec_pos() == old(self).spec_pos(),
            },
    {
        let ghost pre = *self;
        let pos: u64 = match self.extended_at {
            Some(p) => p,
            None => match self.inner.stream_position() {
                Ok(p) => p,
                Err(e) => {
                    return Err(e);
                },
            },
        };
        if pos >= self.limit {
            let empty: Vec<u8> = Vec::new();
            proof {
                assert(empty@ =~= pre.stream().take(0));
                assert(self.stream() =~= pre.stream().skip(0));
            }
            return Ok(empty);
        }
        match self.extended_at {
            Some(p) => {
                // A synthetic fill happened earlier: re-synchronise the
                // backing cursor before trusting it with a real read.
                match self.inner.seek_abs(p) {
                    Ok(_) => {
                        self.extended_at = None;
                    },
                    Err(e) => {
                        proof {
                            assert(self.stream() =~= pre.stream());
                        }
                        return Err(e);
                    },
                }
            },
            None => {},
        }
        let avail: u64 = self.limit - pos;
        let m: usize = if (max as u64) <= avail {
            max
        } else {
            avail as usize
        };
        match self.inner.read_at(m) {
            Err(e) => {
                proof {
                    assert(self.stream() =~= pre.stream());
                }
                Err(e)
            },
            Ok(chunk) => {
                if chunk.len() == 0 {
                    // Physical end of the backing source before the limit:
                    // fabricate zeros for the whole clamped request and mark
                    // the backing cursor as untrusted.
                    let mut z: Vec<u8> = Vec::new();
                    let mut j: usize = 0;
                    while j < m
                        invariant
                            j <= m,
                            z@.len() == j,
                            forall|q: int| 0 <= q < j ==> z@[q] == 0u8,
                        decreases m - j,
                    {
                        z.push(0u8);
                        j = j + 1;
                    }
                    self.extended_at = Some(pos + m as u64);
                    proof {
                        assert(z@ =~= pre.stream().take(m as int));
                        assert(self.stream() =~= pre.stream().skip(m as int));
                    }
                    Ok(z)
                } else {
                    proof {
                        assert(chunk@ =~= pre.stream().take(chunk@.len() as int));
                        assert(self.stream() =~= pre.stream().skip(chunk@.len() as int));
                    }
                    Ok(chunk)
                }
            },
        }
    }
}

/// Relies on `uuid::Uuid::new_v4` and its canonical hyphenated text form: a
/// freshly generated random identifier for a new fragment, 36 characters of
/// hyphenated hex.  Which identifier comes out is random and stays
/// unstated.
#[verifier::external_body]
pub fn uuidgen() -> (r: String)
    ensures
        r@.len() == 36,
{
    uuid::Uuid::new_v4().to_string()
}

} // verus!
