//! The streaming copy-and-hash engine.
//!
//! Bytes stream from a source to a destination and a hash accumulator in
//! lockstep, chunk by chunk, and only bytes that actually landed on the
//! destination are fed to the accumulator.  Failures are classified: a
//! failure of the hash accumulator is fatal — the digest no longer
//! describes what is on the destination, so no caller may record it — while
//! a destination failure after a hash-consistent prefix is not, and the
//! prefix may still be recorded.

use vstd::prelude::*;
use vstd::slice::slice_subrange;

use crate::hash::{base64url_encode, base64url_of, sha3_256_of, Sha3Sink};
use crate::io::{ByteSink, ByteSource, IoError};
use crate::util::{try_write_all, NullBuffer};

verus! {

/// Bytes are moved in chunks of this size.
pub const CHUNK_SIZE: usize = 8192;

/// How a copy ended early.
#[derive(Debug)]
pub enum CopyError {
    /// Reading the source failed.  Everything already written to the
    /// destination remains hash-consistent.
    Read(IoError),
    /// Writing the destination failed.  The prefix that was written remains
    /// hash-consistent.
    Write(IoError),
    /// Feeding the hash accumulator failed: the digest no longer describes
    /// what is on the destination.  The destination write failure that
    /// preceded it in the same chunk, if any, is carried alongside.
    Hash { hash: IoError, write: Option<IoError> },
}

/// Stream `src` to both `dst` and `hasher` in lockstep.  Returns the number
/// of bytes written to the destination, whether the failure (if any) was
/// fatal, and the failure itself.
///
/// Whenever the outcome is not fatal, the bytes fed to the hash accumulator
/// are exactly the bytes written to the destination — the source prefix of
/// the reported length; a violation of that lockstep can only surface as a
/// fatal outcome, under which nothing is claimed of the accumulator.
pub fn copy_and_hash_with<Src: ByteSource, Dst: ByteSink, H: ByteSink>(
    src: &mut Src,
    dst: &mut Dst,
    hasher: &mut H,
) -> (r: (u64, bool, Result<(), CopyError>))
    requires
        old(src).stream().len() <= u64::MAX,
    ensures
        r.0 <= old(src).stream().len(),
        final(dst).sunk() == old(dst).sunk() + old(src).stream().take(r.0 as int),
        !r.1 ==> final(hasher).sunk() == old(hasher).sunk() + old(src).stream().take(r.0 as int),
        r.1 <==> (r.2 matches Err(CopyError::Hash { .. })),
        r.2 matches Ok(_) ==> r.0 == old(src).stream().len() && final(src).stream().len() == 0,
        r.2 matches Err(CopyError::Write(_)) ==> r.0 < old(src).stream().len(),
        r.2 matches Err(CopyError::Read(_)) ==> final(src).stream() == old(src).stream().skip(
            r.0 as int,
        ),
        old(hasher).infallible() ==> !r.1 && final(hasher).infallible(),
        old(dst).infallible() ==> !(r.2 matches Err(CopyError::Write(_)))
            && final(dst).infallible(),
{
    let mut written: u64 = 0;
    proof {
        assert(dst.sunk() =~= old(dst).sunk() + old(src).stream().take(0));
        assert(hasher.sunk() =~= old(hasher).sunk() + old(src).stream().take(0));
        assert(src.stream() =~= old(src).stream().skip(0));
    }
    loop
        invariant
            old(src).stream().len() <= u64::MAX,
            written <= old(src).stream().len(),
            src.stream() == old(src).stream().skip(written as int),
            dst.sunk() == old(dst).sunk() + old(src).stream().take(written as int),
            hasher.sunk() == old(hasher).sunk() + old(src).stream().take(written as int),
            old(hasher).infallible() ==> hasher.infallible(),
            old(dst).infallible() ==> dst.infallible(),
        decreases src.stream().len(),
    {
        let ghost stream_before = src.stream();
        let chunk = match src.read_chunk(CHUNK_SIZE) {
            Ok(c) => c,
            Err(e) => {
                return (written, false, Err(CopyError::Read(e)));
            },
        };
        if chunk.len() == 0 {
            return (written, false, Ok(()));
        }
        let (chunk_written, write_res) = try_write_all(dst, chunk.as_slice());
        let prefix = slice_subrange(chunk.as_slice(), 0, chunk_written);
        let (chunk_hashed, hash_res) = try_write_all(hasher, prefix);
        proof {
            assert(chunk@.take(chunk_written as int) =~= stream_before.take(chunk_written as int));
            assert(old(src).stream().take(written + chunk_written) =~= old(src).stream().take(
                written as int,
            ) + stream_before.take(chunk_written as int));
        }
        written = written + chunk_written as u64;
        match hash_res {
            Err(hash_err) => {
                let write_err = match write_res {
                    Ok(_) => None,
                    Err(e) => Some(e),
                };
                return (written, true, Err(CopyError::Hash { hash: hash_err, write: write_err }));
            },
            Ok(_) => {
                proof {
                    assert(prefix@.take(chunk_hashed as int) =~= chunk@.take(chunk_written as int));
                }
            },
        }
        match write_res {
            Err(write_err) => {
                return (written, false, Err(CopyError::Write(write_err)));
            },
            Ok(_) => {},
        }
        proof {
            assert(chunk@.take(chunk_written as int) =~= chunk@);
            assert(src.stream() =~= old(src).stream().skip(written as int));
        }
    }
}

/// Stream `src` to `dst`, producing the digest of what was written as its
/// URL-safe unpadded text encoding.  The production accumulator cannot
/// fail, so the outcome is never fatal and the digest always describes
/// exactly the destination bytes.
pub fn copy_and_hash<Src: ByteSource, Dst: ByteSink>(src: &mut Src, dst: &mut Dst) -> (r: (
    String,
    u64,
    bool,
    Result<(), CopyError>,
))
    requires
        old(src).stream().len() <= u64::MAX,
    ensures
        r.1 <= old(src).stream().len(),
        final(dst).sunk() == old(dst).sunk() + old(src).stream().take(r.1 as int),
        r.0@ == base64url_of(sha3_256_of(old(src).stream().take(r.1 as int))),
        r.0@.len() == 43,
        !r.2,
        !(r.3 matches Err(CopyError::Hash { .. })),
        r.3 matches Ok(_) ==> r.1 == old(src).stream().len() && final(src).stream().len() == 0,
        r.3 matches Err(CopyError::Read(_)) ==> final(src).stream() == old(src).stream().skip(
            r.1 as int,
        ),
        old(dst).infallible() ==> !(r.3 matches Err(CopyError::Write(_))),
{
    let mut hasher = Sha3Sink::new();
    let (written, fatal, res) = copy_and_hash_with(src, dst, &mut hasher);
    let digest = hasher.finalize();
    let hash = base64url_encode(&digest);
    (hash, written, fatal, res)
}

/// Stream `src` to `dst` without computing a digest: the hash accumulator
/// is a discarding sink, which cannot fail, so the outcome is never
/// fatal.
pub fn copy_without_hash<Src: ByteSource, Dst: ByteSink>(src: &mut Src, dst: &mut Dst) -> (r: (
    u64,
    bool,
    Result<(), CopyError>,
))
    requires
        old(src).stream().len() <= u64::MAX,
    ensures
        r.0 <= old(src).stream().len(),
        final(dst).sunk() == old(dst).sunk() + old(src).stream().take(r.0 as int),
        !r.1,
        !(r.2 matches Err(CopyError::Hash { .. })),
        r.2 matches Ok(_) ==> r.0 == old(src).stream().len(),
{
    let mut null = NullBuffer::new();
    let (written, fatal, res) = copy_and_hash_with(src, dst, &mut null);
    (written, fatal, res)
}

/// Compute the digest of a stream without storing it anywhere: the
/// destination is a discarding sink.  Returns the digest's text encoding
/// and how many bytes it describes.  It cannot fail: neither the discarding
/// destination nor the accumulator can reject a byte, and a failure to read
/// the source only shortens what was consumed, the digest of the prefix
/// read so far still being exact.
pub fn hash_data<Src: ByteSource>(src: &mut Src) -> (r: (String, u64))
    requires
        old(src).stream().len() <= u64::MAX,
    ensures
        r.1 <= old(src).stream().len(),
        r.0@ == base64url_of(sha3_256_of(old(src).stream().take(r.1 as int))),
        r.0@.len() == 43,
        final(src).stream() == old(src).stream().skip(r.1 as int),
{
    let mut null = NullBuffer::new();
    let (hash, written, _fatal, _res) = copy_and_hash(src, &mut null);
    proof {
        assert(src.stream() =~= old(src).stream().skip(written as int));
    }
    (hash, written)
}

/// Stream `src` to `dst`, computing the digest only when `with_hash` asks
/// for it.  Neither accumulator can fail, so the outcome is never fatal.
pub fn copy_and_optionally_hash<Src: ByteSource, Dst: ByteSink>(
    with_hash: bool,
    src: &mut Src,
    dst: &mut Dst,
) -> (r: (Option<String>, u64, bool, Result<(), CopyError>))
    requires
        old(src).stream().len() <= u64::MAX,
    ensures
        r.1 <= old(src).stream().len(),
        final(dst).sunk() == old(dst).sunk() + old(src).stream().take(r.1 as int),
        !r.2,
        !(r.3 matches Err(CopyError::Hash { .. })),
        r.3 matches Ok(_) ==> r.1 == old(src).stream().len(),
        with_hash ==> (r.0 matches Some(h) && h@ == base64url_of(
            sha3_256_of(old(src).stream().take(r.1 as int)),
        ) && h@.len() == 43),
        !with_hash ==> r.0 is None,
{
    if with_hash {
        let (hash, written, fatal, res) = copy_and_hash(src, dst);
        (Some(hash), written, fatal, res)
    } else {
        let (written, fatal, res) = copy_without_hash(src, dst);
        (None, written, fatal, res)
    }
}

} // verus!
