//! Incremental, content-verified file backup library.
//!
//! A source file's byte range is split into tracked fragments spread over one
//! or more destination volumes, each fragment hashed so that later restores
//! can be checked byte for byte.  An index records the fragment set between
//! invocations.  An index is single-writer: nothing locks it across the
//! load-modify-store cycle of one invocation, and concurrent invocations
//! against the same index are the operator's responsibility.  The modules,
//! leaves first:
//!
//! - [`index`] — the fragment/index data model and its lookup operations;
//! - [`segment`] — the pure algebra over byte ranges that computes what
//!   remains to be backed up;
//! - [`io`] — byte-source and byte-sink abstractions with in-memory
//!   implementations;
//! - [`util`] — the bounded, zero-extending read adapter and small helpers;
//! - [`hash`] — the digest accumulator and its text encoding;
//! - [`copy`] — the streaming copy-and-hash engine with its fatal/non-fatal
//!   failure classification;
//! - [`workflow`] — the create / write-backup / restore / validate workflows.

pub mod copy;
pub mod hash;
pub mod index;
pub mod io;
pub mod segment;
pub mod util;
pub mod workflow;
