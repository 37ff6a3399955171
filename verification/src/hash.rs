//! The digest accumulator the index records, and its text encoding.
//!
//! The digest itself is computed by an outside implementation; the library
//! names its result ([`sha3_256_of`], [`base64url_of`]) and states nothing
//! of the values beyond their length, so every claim about recorded digests
//! is a claim about which bytes were fed in.

use vstd::prelude::*;

use crate::io::{ByteSink, IoError};

verus! {

/// The 256-bit digest of a byte sequence, as the production digest
/// algorithm computes it.  A function of the input alone; its value is
/// never stated.
pub uninterp spec fn sha3_256_of(data: Seq<u8>) -> Seq<u8>;

/// The URL-safe, unpadded text encoding of a byte sequence.  A function of
/// the input alone; its value is never stated.
pub uninterp spec fn base64url_of(data: Seq<u8>) -> Seq<char>;

/// Holds the outside digest state.  Declaring that state's type to the
/// verifier founders on its deeply generic insides, so this struct hides it
/// whole; nothing is stated of it.
#[verifier::external_body]
pub struct Sha3State {
    inner: sha3::Sha3_256,
}

/// An accumulator for the production digest algorithm: a sink whose digest,
/// once finalised, describes exactly the bytes it accepted.
pub struct Sha3Sink {
    state: Sha3State,
    fed: Ghost<Seq<u8>>,
}

impl Sha3Sink {
    /// Relies on `sha3::Sha3_256::default`: a fresh accumulator has
    /// absorbed nothing.
    #[verifier::external_body]
    pub fn new() -> (r: Self)
        ensures
            r.sunk() == Seq::<u8>::empty(),
    {
        Sha3Sink { state: Sha3State { inner: sha3::Sha3_256::default() }, fed: Ghost(Seq::empty()) }
    }

    /// Relies on sha3's `Update::update`: absorbing bytes appends them to
    /// what the accumulator has seen, and cannot fail.
    #[verifier::external_body]
    fn update(&mut self, buf: &[u8])
        ensures
            final(self).sunk() == old(self).sunk() + buf@,
    {
        sha3::digest::Update::update(&mut self.state.inner, buf);
    }

    /// Relies on sha3's `FixedOutput::finalize_fixed`: the 32-byte digest
    /// of exactly the bytes absorbed.
    #[verifier::external_body]
    pub fn finalize(self) -> (r: Vec<u8>)
        ensures
            r@ == sha3_256_of(self.sunk()),
            r@.len() == 32,
    {
        sha3::digest::FixedOutput::finalize_fixed(self.state.inner).to_vec()
    }
}

impl ByteSink for Sha3Sink {
    closed spec fn sunk(&self) -> Seq<u8> {
        self.fed@
    }

    /// Absorbing into the accumulator cannot fail.
    open spec fn infallible(&self) -> bool {
        true
    }

    fn write(&mut self, buf: &[u8]) -> (r: Result<usize, IoError>) {
        self.update(buf);
        proof {
            assert(buf@.take(buf@.len() as int) =~= buf@);
        }
        Ok(buf.len())
    }

    fn sync(&mut self) -> (r: Result<(), IoError>) {
        Ok(())
    }
}

/// Relies on base64's `URL_SAFE_NO_PAD` engine: the URL-safe unpadded text
/// encoding of the input bytes.  Unpadded base64 emits four characters per
/// whole three-byte group, two for a trailing byte, three for a trailing
/// pair, which is `(4n + 2) / 3` characters in all.
#[verifier::external_body]
pub fn base64url_encode(data: &Vec<u8>) -> (r: String)
    ensures
        r@ == base64url_of(data@),
        r@.len() == (4 * data@.len() + 2) / 3,
{
    base64::Engine::encode(&base64::engine::general_purpose::URL_SAFE_NO_PAD, data)
}

} // verus!
