//! The workflows: create, write-backup-segment, restore-from-fragment and
//! validate-hash.
//!
//! Each workflow is split into the part that decides and the part that
//! copies.  Planning functions work on the index alone and compute what to
//! open and where to position it; performing functions take the already
//! opened and positioned byte streams, drive the copy engine, classify its
//! outcome and mutate the index.  The surrounding program does only the
//! opening, positioning and persisting.

use vstd::prelude::*;
use vstd::string::StringExecFns;

use crate::copy::{copy_and_optionally_hash, hash_data, CopyError};
use crate::hash::{base64url_of, sha3_256_of};
use crate::index::{File, Fragment, HashIdentifier, Index, LookupError, Meta, Slice};
use crate::io::{ByteSink, ByteSource, IoError};
use crate::util::uuidgen;

verus! {

/// How a workflow fails.  Lookup and validation failures are always hard
/// errors; a copy failure that made no progress aborts before any index
/// mutation.
#[derive(Debug)]
pub enum WorkflowError {
    /// No index was loaded where one is required.
    IndexMissing,
    /// Refusing to overwrite an existing index.
    IndexExists,
    /// No fragment carries the alias.
    FragmentNotFound(String),
    /// More than one fragment carries the alias.
    FragmentAmbiguous(String),
    /// The named fragment's location is not a plain file path.
    UnsupportedLocation(String),
    /// The overlap covers the whole source fragment, but it stores no
    /// digest to check against.
    MissingSourceHash,
    /// The overlap covers the whole destination fragment, but it stores no
    /// digest to check against.
    MissingDestinationHash,
    /// The overlap is a strict sub-range of both fragments: no single
    /// stored digest vouches for exactly those bytes.
    AmbiguousOverlapHash,
    /// The computed digest does not match the stored reference.
    HashMismatch { computed: String, reference: String },
    /// Fewer bytes were moved than the range demands.
    ShortCopy { written: u64, expected: u64 },
    /// The length determined by seeking disagrees with the length found by
    /// consuming the stream.
    LengthMismatch { seek: u64, consumed: u64 },
    /// The copy engine failed.
    Copy(CopyError),
    /// Synchronising the destination to stable storage failed.
    Sync(IoError),
}

/// Parameters of the create workflow.
pub struct CreateCommand {
    /// The source file, as given.
    pub path: String,
    /// An alias for the new index.
    pub name: Option<String>,
    /// Skip computing the source digest.
    pub no_hash: bool,
}

/// Parameters of the write-backup-segment workflow.
pub struct WriteBackupCommand {
    /// The destination file, as given.
    pub destination: String,
    /// The backup set this destination belongs to.
    pub backup_group: String,
    /// Skip computing the digest of what is written.
    pub no_hash: bool,
}

/// Parameters of the restore-from-fragment workflow.
pub struct RestoreFromFragment {
    /// Alias of the fragment to read from.
    pub source_fragment: String,
    /// Alias of the fragment to write to; the fragment named "main" when
    /// absent.
    pub dest_fragment: Option<String>,
    /// Skip checking the copied bytes against a stored digest.
    pub no_hash: bool,
}

/// Parameters of the validate-hash workflow.
pub struct ValidateHash {
    /// Alias of the fragment whose backing bytes are to be checked.
    pub fragment: String,
}

/// One invocation: the index file's path, the index loaded from it if it
/// exists, and the command to run against it.
pub struct CommandInvocation<Command> {
    pub index_file: String,
    pub index: Option<Index>,
    pub command: Command,
}

impl<T> CommandInvocation<T> {
    /// The loaded index, or the error that it is missing.
    pub fn use_index(&self) -> (r: Result<&Index, WorkflowError>)
        ensures
            match r {
                Ok(idx) => (self.index matches Some(i) && *idx == i),
                Err(e) => (e matches WorkflowError::IndexMissing) && self.index is None,
            },
    {
        match &self.index {
            Some(idx) => Ok(idx),
            None => Err(WorkflowError::IndexMissing),
        }
    }
}

/// Consume `src` entirely, counting its bytes.
fn measure_stream_length<S: ByteSource>(src: &mut S) -> (r: Result<u64, IoError>)
    requires
        old(src).stream().len() <= u64::MAX,
    ensures
        match r {
            Ok(n) => n == old(src).stream().len() && final(src).stream().len() == 0,
            Err(_) => true,
        },
{
    let mut count: u64 = 0;
    proof {
        assert(src.stream() =~= old(src).stream().skip(0));
    }
    loop
        invariant
            old(src).stream().len() <= u64::MAX,
            count <= old(src).stream().len(),
            src.stream() == old(src).stream().skip(count as int),
        decreases src.stream().len(),
    {
        let chunk = match src.read_chunk(crate::copy::CHUNK_SIZE) {
            Ok(c) => c,
            Err(e) => {
                return Err(e);
            },
        };
        if chunk.len() == 0 {
            return Ok(count);
        }
        proof {
            assert(old(src).stream().skip(count as int).skip(chunk@.len() as int)
                =~= old(src).stream().skip(count + chunk@.len()));
        }
        count = count + chunk.len() as u64;
    }
}

/// The create workflow's computation: refuse to overwrite a loaded index,
/// determine the source's length — from `seek_len` where seeking could tell
/// it, else by consuming the stream — optionally digest the source, and
/// build a fresh index whose one fragment, aliased and grouped "main",
/// spans `[0, length)` and records the canonicalized source path.
///
/// The caller opens the source and supplies both the as-given path (in the
/// command) and its canonicalized form.
pub fn create<S: ByteSource>(
    args: &CommandInvocation<CreateCommand>,
    source: &mut S,
    seek_len: Option<u64>,
    canonical: &str,
) -> (r: Result<Index, WorkflowError>)
    requires
        old(source).stream().len() <= u64::MAX,
    ensures
        match r {
            Ok(idx) => {
                &&& args.index is None
                &&& idx.fragments@.len() == 1
                &&& ({
                    let frag = idx.fragments@[0];
                    let with_hash = !args.command.no_hash;
                    &&& frag.geometry.start == 0
                    &&& frag.geometry.wf()
                    &&& frag.meta.name@.len() == 2
                    &&& frag.meta.name@[0]@ == "main"@
                    &&& frag.spec_is_named("main"@)
                    &&& frag.groups@.len() == 1
                    &&& frag.groups@[0]@ == "main"@
                    &&& frag.has_plain_file_path()
                    &&& frag.spec_filepath() == canonical@
                    &&& frag.holes@.len() == 0
                    &&& (with_hash ==> {
                        &&& frag.geometry.end <= old(source).stream().len()
                        &&& frag.spec_stored_hash(HashIdentifier::Sha3_256) == Some(
                            base64url_of(
                                sha3_256_of(old(source).stream().take(frag.geometry.end as int)),
                            ),
                        )
                    })
                    &&& (!with_hash ==> frag.spec_stored_hash(HashIdentifier::Sha3_256) is None)
                    &&& (seek_len matches Some(l) ==> frag.geometry.end == l)
                    &&& (seek_len is None && !with_hash ==> frag.geometry.end == old(
                        source,
                    ).stream().len())
                    &&& (with_hash ==> final(source).stream() == old(source).stream().skip(
                        frag.geometry.end as int,
                    ))
                    &&& (!with_hash && seek_len is Some ==> final(source).stream() == old(
                        source,
                    ).stream())
                    &&& (!with_hash && seek_len is None ==> final(source).stream().len() == 0)
                    &&& frag.meta.name@[1]@.len() == 36
                    &&& frag.meta.comment@.len() == 2
                    &&& frag.meta.comment@[0]@ == "Relative path during fragment creation: "@
                        + args.command.path@
                    &&& frag.meta.comment@[1]@ == "Canonical path during fragment creation: "@
                        + canonical@
                })
                &&& (args.command.name matches Some(n) ==> idx.meta.name@.len() == 1
                    && idx.meta.name@[0]@ == n@)
                &&& (args.command.name is None ==> idx.meta.name@.len() == 0)
            },
            Err(WorkflowError::IndexExists) => args.index is Some,
            Err(WorkflowError::LengthMismatch { seek, consumed }) => {
                &&& args.index is None
                &&& !args.command.no_hash
                &&& seek_len == Some(seek)
                &&& consumed != seek
                &&& final(source).stream() == old(source).stream().skip(consumed as int)
            },
            Err(WorkflowError::Copy(e)) => {
                &&& args.index is None
                &&& args.command.no_hash
                &&& seek_len is None
                &&& e matches CopyError::Read(_)
            },
            Err(_) => false,
        },
{
    if args.index.is_some() {
        return Err(WorkflowError::IndexExists);
    }
    let with_hash = !args.command.no_hash;
    let (hash, len): (Option<String>, u64) = if with_hash {
        let (digest, consumed) = hash_data(source);
        match seek_len {
            Some(l) => {
                if consumed != l {
                    return Err(WorkflowError::LengthMismatch { seek: l, consumed });
                }
                (Some(digest), l)
            },
            None => (Some(digest), consumed),
        }
    } else {
        match seek_len {
            Some(l) => (None, l),
            None => match measure_stream_length(source) {
                Ok(n) => (None, n),
                Err(e) => {
                    return Err(WorkflowError::Copy(CopyError::Read(e)));
                },
            },
        }
    };
    let mut rel_comment: String = "Relative path during fragment creation: ".to_owned();
    rel_comment.append(args.command.path.as_str());
    let mut canon_comment: String = "Canonical path during fragment creation: ".to_owned();
    canon_comment.append(canonical);
    let mut hashes: Vec<(HashIdentifier, String)> = Vec::new();
    match hash {
        Some(h) => {
            hashes.push((HashIdentifier::Sha3_256, h));
        },
        None => {},
    }
    let main_frag = Fragment {
        meta: Meta {
            name: vec!["main".to_owned(), uuidgen()],
            comment: vec![rel_comment, canon_comment],
        },
        groups: vec!["main".to_owned()],
        location: File { device: None, path: canonical.to_owned() }.as_location(),
        hashes,
        geometry: Slice { start: 0, end: len },
        holes: Vec::new(),
    };
    let mut index_names: Vec<String> = Vec::new();
    match &args.command.name {
        Some(n) => {
            index_names.push(n.clone());
        },
        None => {},
    }
    let mut idx_rel_comment: String = "Relative path during creation: ".to_owned();
    idx_rel_comment.append(args.command.path.as_str());
    let mut idx_canon_comment: String = "Canonical path during creation: ".to_owned();
    idx_canon_comment.append(canonical);
    let index = Index {
        meta: Meta { name: index_names, comment: vec![idx_rel_comment, idx_canon_comment] },
        fragments: vec![main_frag],
    };
    Ok(index)
}

/// What plan-write-backup decided: where the "main" fragment's bytes live
/// and which range of them the backup group has not yet covered.
pub struct BackupPlan {
    /// Path of the file backing the "main" fragment.
    pub source_path: String,
    /// The "main" fragment's geometry: the full range to be covered.
    pub main_geometry: Slice,
    /// The next contiguous uncovered extent, to be copied now.
    pub range: Slice,
}

/// Decide what a write-backup-segment invocation has to do: resolve the
/// "main" fragment, and compute the next extent of its geometry that the
/// backup group does not cover.  `Ok(None)` means the backup is already
/// complete and nothing must be written.
pub fn plan_write_backup(idx: &Index, backup_group: &str) -> (r: Result<
    Option<BackupPlan>,
    WorkflowError,
>)
    ensures
        match r {
            Ok(opt) => exists|i: int|
                {
                    &&& #[trigger] idx.uniquely_named_at("main"@, i)
                    &&& idx.fragments@[i].has_plain_file_path()
                    &&& match opt {
                        Some(plan) => {
                            &&& plan.main_geometry == idx.fragments@[i].geometry
                            &&& plan.source_path@ == idx.fragments@[i].spec_filepath()
                            &&& Some(plan.range) == crate::segment::spec_next_uncovered(
                                plan.main_geometry,
                                crate::segment::group_geometries(idx.fragments@, backup_group@),
                            )
                            &&& plan.range.start < plan.range.end
                        },
                        None => crate::segment::spec_next_uncovered(
                            idx.fragments@[i].geometry,
                            crate::segment::group_geometries(idx.fragments@, backup_group@),
                        ) is None,
                    }
                },
            Err(WorkflowError::FragmentNotFound(n)) => n@ == "main"@ && no_fragment_named(
                *idx,
                n@,
            ),
            Err(WorkflowError::FragmentAmbiguous(n)) => n@ == "main"@ && several_fragments_named(
                *idx,
                n@,
            ),
            Err(WorkflowError::UnsupportedLocation(n)) => n@ == "main"@
                && named_location_unsupported(*idx, n@),
            Err(_) => false,
        },
{
    let main_ptr = match idx.get_fragment_by_name("main") {
        Ok(p) => p,
        Err(LookupError::NotFound) => {
            return Err(WorkflowError::FragmentNotFound("main".to_owned()));
        },
        Err(LookupError::Ambiguous) => {
            return Err(WorkflowError::FragmentAmbiguous("main".to_owned()));
        },
    };
    let main_frag = main_ptr.get(idx);
    if !(matches!(&main_frag.location.data, crate::index::LocationData::File(f) if f.device.is_none())
        && main_frag.location.slice.is_none()) {
        return Err(WorkflowError::UnsupportedLocation("main".to_owned()));
    }
    let geometry = main_frag.geometry;
    let path = main_frag.filepath().clone();
    match crate::segment::determine_next_backup(idx, geometry, backup_group) {
        Some(range) => Ok(
            Some(BackupPlan { source_path: path, main_geometry: geometry, range }),
        ),
        None => Ok(None),
    }
}

/// The terminal status of a write-backup-segment invocation that wrote.
#[derive(Clone, Copy, Debug, PartialEq, Eq, Structural)]
pub enum BackupStatus {
    /// The whole range is now covered.
    Complete,
    /// A fragment was recorded; more invocations are needed.
    MoreRemaining,
}

/// What a write-backup-segment invocation reports on success.
pub struct BackupOutcome {
    pub status: BackupStatus,
    /// A failure that ended the copy early without compromising the digest:
    /// the recorded fragment covers the prefix that was written.
    pub warning: Option<CopyError>,
}

/// Copy the planned range from the already positioned `source` into
/// `destination`, force the destination to stable storage, and record the
/// sub-range that actually landed there as a new fragment of the backup
/// group — hashed, when hashing is on, with the digest of exactly those
/// bytes.  A copy that made no progress at all aborts without touching the
/// index; so does a failing sync.
pub fn perform_write_backup<S: ByteSource, D: ByteSink>(
    idx: &mut Index,
    plan: &BackupPlan,
    source: &mut S,
    destination: &mut D,
    with_hash: bool,
    backup_group: &str,
    destination_path: &str,
    destination_canonical: &str,
) -> (r: Result<BackupOutcome, WorkflowError>)
    requires
        old(source).stream().len() == plan.range.spec_len(),
        plan.range.wf(),
        plan.range.spec_len() > 0,
    ensures
        match r {
            Ok(outcome) => {
                &&& final(idx).fragments@.len() == old(idx).fragments@.len() + 1
                &&& final(idx).fragments@.drop_last() == old(idx).fragments@
                &&& final(idx).meta == old(idx).meta
                &&& ({
                    let frag = final(idx).fragments@.last();
                    let written = frag.geometry.spec_len();
                    &&& frag.geometry.start == plan.range.start
                    &&& frag.geometry.end <= plan.range.end
                    &&& written > 0
                    &&& final(destination).sunk() == old(destination).sunk() + old(
                        source,
                    ).stream().take(written)
                    &&& (with_hash ==> frag.spec_stored_hash(HashIdentifier::Sha3_256) == Some(
                        base64url_of(sha3_256_of(old(source).stream().take(written))),
                    ))
                    &&& (!with_hash ==> frag.spec_stored_hash(HashIdentifier::Sha3_256) is None)
                    &&& frag.spec_in_group(backup_group@)
                    &&& frag.groups@.len() == 1
                    &&& frag.meta.name@.len() == 1
                    &&& frag.meta.name@[0]@.len() == 36
                    &&& frag.has_plain_file_path()
                    &&& frag.spec_filepath() == destination_canonical@
                    &&& frag.holes@.len() == 0
                    &&& (outcome.warning is None ==> written == plan.range.spec_len())
                })
                &&& ({
                    (outcome.status is Complete) <==> crate::segment::spec_next_uncovered(
                        plan.main_geometry,
                        crate::segment::group_geometries(final(idx).fragments@, backup_group@),
                    ) is None
                })
            },
            Err(e) => {
                &&& *final(idx) == *old(idx)
                &&& match e {
                    WorkflowError::Copy(_) => final(destination).sunk() == old(
                        destination,
                    ).sunk(),
                    WorkflowError::Sync(_) => exists|w: int|
                        0 < w <= plan.range.spec_len() && final(destination).sunk() == old(
                            destination,
                        ).sunk() + old(source).stream().take(w),
                    _ => false,
                }
            },
        },
{
    let (hash, written, _fatal, res) = copy_and_optionally_hash(with_hash, source, destination);
    if written == 0 {
        match res {
            Err(e) => {
                return Err(WorkflowError::Copy(e));
            },
            Ok(_) => {
                // The engine guarantees a non-fatal, error-free outcome
                // consumed the whole stream, which is nonempty here.
                return unreached();
            },
        }
    }
    let warning: Option<CopyError> = match res {
        Err(e) => Some(e),
        Ok(_) => None,
    };
    // Make sure the data is durable before the index records it.
    match destination.sync() {
        Err(e) => {
            proof {
                assert(0 < written as int <= plan.range.spec_len() && destination.sunk() == old(
                    destination,
                ).sunk() + old(source).stream().take(written as int));
            }
            return Err(WorkflowError::Sync(e));
        },
        Ok(_) => {},
    }
    let mut rel_comment: String = "Relative path during fragment creation: ".to_owned();
    rel_comment.append(destination_path);
    let mut canon_comment: String = "Canonical path during fragment creation: ".to_owned();
    canon_comment.append(destination_canonical);
    let mut hashes: Vec<(HashIdentifier, String)> = Vec::new();
    match hash {
        Some(h) => {
            hashes.push((HashIdentifier::Sha3_256, h));
        },
        None => {},
    }
    let actually_backed_up = Slice { start: plan.range.start, end: plan.range.start + written };
    let frag = Fragment {
        meta: Meta { name: vec![uuidgen()], comment: vec![rel_comment, canon_comment] },
        groups: vec![backup_group.to_owned()],
        location: File { device: None, path: destination_canonical.to_owned() }.as_location(),
        hashes,
        geometry: actually_backed_up,
        holes: Vec::new(),
    };
    let ghost gfrag = frag;
    idx.fragments.push(frag);
    proof {
        assert(idx.fragments@.drop_last() =~= old(idx).fragments@);
        assert(idx.fragments@.last() == gfrag);
        if with_hash {
            assert(gfrag.spec_stored_hash(HashIdentifier::Sha3_256) == Some(gfrag.hashes@[0].1@));
        } else {
            assert(gfrag.spec_stored_hash(HashIdentifier::Sha3_256) is None);
        }
        assert(gfrag.groups@[0]@ == backup_group@);
        assert(gfrag.spec_in_group(backup_group@));
    }
    let status = match crate::segment::determine_next_backup(
        idx,
        plan.main_geometry,
        backup_group,
    ) {
        None => BackupStatus::Complete,
        Some(_) => BackupStatus::MoreRemaining,
    };
    Ok(BackupOutcome { status, warning })
}

/// The alias the restore destination defaults to when none is given.
pub open spec fn spec_dest_alias(cmd: RestoreFromFragment) -> Seq<char> {
    match cmd.dest_fragment {
        Some(s) => s@,
        None => "main"@,
    }
}

/// No fragment of `idx` carries alias `name`.
pub open spec fn no_fragment_named(idx: Index, name: Seq<char>) -> bool {
    forall|k: int| !idx.frag_named_at(name, k)
}

/// At least two fragments of `idx` carry alias `name`.
pub open spec fn several_fragments_named(idx: Index, name: Seq<char>) -> bool {
    exists|k: int, l: int| k < l && idx.frag_named_at(name, k) && idx.frag_named_at(name, l)
}

/// The one fragment of `idx` carrying alias `name` is not backed by a plain
/// file path.
pub open spec fn named_location_unsupported(idx: Index, name: Seq<char>) -> bool {
    exists|k: int|
        #[trigger] idx.uniquely_named_at(name, k) && !idx.fragments@[k].has_plain_file_path()
}

/// A restore resolved its source alias to position `i` and its destination
/// alias to position `j`.
pub open spec fn restore_resolved(idx: Index, cmd: RestoreFromFragment, i: int, j: int) -> bool {
    &&& idx.uniquely_named_at(cmd.source_fragment@, i)
    &&& idx.uniquely_named_at(spec_dest_alias(cmd), j)
}

/// The overlap of the geometries at positions `i` and `j`.
pub open spec fn restore_overlap(idx: Index, i: int, j: int) -> Slice {
    crate::segment::spec_overlap(idx.fragments@[i].geometry, idx.fragments@[j].geometry)
}

/// The overlap covers the whole source geometry, but the source fragment
/// stores no digest.
pub open spec fn restore_missing_source_hash(idx: Index, i: int, j: int) -> bool {
    let ov = restore_overlap(idx, i, j);
    &&& ov.start < ov.end
    &&& ov == idx.fragments@[i].geometry
    &&& idx.fragments@[i].spec_stored_hash(HashIdentifier::Sha3_256) is None
}

/// The overlap covers the whole destination geometry but not the source's,
/// and the destination fragment stores no digest.
pub open spec fn restore_missing_dest_hash(idx: Index, i: int, j: int) -> bool {
    let ov = restore_overlap(idx, i, j);
    &&& ov.start < ov.end
    &&& ov != idx.fragments@[i].geometry
    &&& ov == idx.fragments@[j].geometry
    &&& idx.fragments@[j].spec_stored_hash(HashIdentifier::Sha3_256) is None
}

/// The overlap is a strict sub-range of both geometries: no stored digest
/// can vouch for it.
pub open spec fn restore_provenance_ambiguous(idx: Index, i: int, j: int) -> bool {
    let ov = restore_overlap(idx, i, j);
    &&& ov.start < ov.end
    &&& ov != idx.fragments@[i].geometry
    &&& ov != idx.fragments@[j].geometry
}

/// Everything a produced restore plan promises of the fragments at
/// positions `i` and `j`.
pub open spec fn restore_plan_describes(
    idx: Index,
    cmd: RestoreFromFragment,
    plan: RestorePlan,
    i: int,
    j: int,
) -> bool {
    let sg = idx.fragments@[i].geometry;
    let dg = idx.fragments@[j].geometry;
    let ov = restore_overlap(idx, i, j);
    &&& ov.start < ov.end
    &&& plan.copy == ov
    &&& idx.fragments@[i].has_plain_file_path()
    &&& idx.fragments@[j].has_plain_file_path()
    &&& plan.source_path@ == idx.fragments@[i].spec_filepath()
    &&& plan.dest_path@ == idx.fragments@[j].spec_filepath()
    &&& plan.source_offset == ov.start - sg.start
    &&& plan.dest_offset == ov.start - dg.start
    &&& plan.dest_len == dg.spec_len()
    &&& (!cmd.no_hash ==> (plan.reference_hash matches Some(h) && ((ov == sg
        && idx.fragments@[i].spec_stored_hash(HashIdentifier::Sha3_256) == Some(h@)) || (ov != sg
        && ov == dg && idx.fragments@[j].spec_stored_hash(HashIdentifier::Sha3_256) == Some(h@)))))
    &&& (cmd.no_hash ==> plan.reference_hash is None)
}

/// What plan-restore decided: which files to open, where to position them,
/// how much to copy, and which stored digest must vouch for the bytes.
pub struct RestorePlan {
    /// Path of the file backing the source fragment.
    pub source_path: String,
    /// Path of the file backing the destination fragment.
    pub dest_path: String,
    /// The overlap of the two geometries: the range to copy, in the shared
    /// coordinate space.
    pub copy: Slice,
    /// Where the overlap begins within the source fragment's file.
    pub source_offset: u64,
    /// Where the overlap begins within the destination fragment's file.
    pub dest_offset: u64,
    /// The destination fragment's full declared length, for best-effort
    /// preallocation (what leaves a sparse destination when only a
    /// sub-range is restored).
    pub dest_len: u64,
    /// The stored digest that must describe the copied bytes, when hashing.
    pub reference_hash: Option<String>,
}

/// Decide what a restore-from-fragment invocation has to do: resolve the
/// source and destination fragments, intersect their geometries, and select
/// the digest that may vouch for the overlap — the source fragment's if the
/// overlap is its whole geometry, else the destination fragment's if it is
/// its whole geometry; an overlap that is a strict sub-range of both has no
/// single trustworthy digest and hashing must be disabled explicitly.
/// `Ok(None)` means the geometries do not overlap and nothing is to be
/// copied.
#[verifier::rlimit(50)]
pub fn plan_restore(idx: &Index, cmd: &RestoreFromFragment) -> (r: Result<
    Option<RestorePlan>,
    WorkflowError,
>)
    requires
        idx.wf(),
    ensures
        match r {
            Ok(opt) => exists|i: int, j: int|
                #[trigger] restore_resolved(*idx, *cmd, i, j) && match opt {
                    None => restore_overlap(*idx, i, j).end <= restore_overlap(*idx, i, j).start,
                    Some(plan) => restore_plan_describes(*idx, *cmd, plan, i, j),
                },
            Err(WorkflowError::FragmentNotFound(n)) => (n@ == cmd.source_fragment@ || n@
                == spec_dest_alias(*cmd)) && no_fragment_named(*idx, n@),
            Err(WorkflowError::FragmentAmbiguous(n)) => (n@ == cmd.source_fragment@ || n@
                == spec_dest_alias(*cmd)) && several_fragments_named(*idx, n@),
            Err(WorkflowError::UnsupportedLocation(n)) => (n@ == cmd.source_fragment@ || n@
                == spec_dest_alias(*cmd)) && named_location_unsupported(*idx, n@),
            Err(WorkflowError::MissingSourceHash) => !cmd.no_hash && exists|i: int, j: int|
                #[trigger] restore_resolved(*idx, *cmd, i, j) && restore_missing_source_hash(
                    *idx,
                    i,
                    j,
                ),
            Err(WorkflowError::MissingDestinationHash) => !cmd.no_hash && exists|i: int, j: int|
                #[trigger] restore_resolved(*idx, *cmd, i, j) && restore_missing_dest_hash(
                    *idx,
                    i,
                    j,
                ),
            Err(WorkflowError::AmbiguousOverlapHash) => !cmd.no_hash && exists|i: int, j: int|
                #[trigger] restore_resolved(*idx, *cmd, i, j) && restore_provenance_ambiguous(
                    *idx,
                    i,
                    j,
                ),
            Err(_) => false,
        },
{
    let with_hash = !cmd.no_hash;
    let src_ptr = match idx.get_fragment_by_name(cmd.source_fragment.as_str()) {
        Ok(p) => p,
        Err(LookupError::NotFound) => {
            return Err(WorkflowError::FragmentNotFound(cmd.source_fragment.clone()));
        },
        Err(LookupError::Ambiguous) => {
            return Err(WorkflowError::FragmentAmbiguous(cmd.source_fragment.clone()));
        },
    };
    let dest_name: String = match &cmd.dest_fragment {
        Some(s) => s.clone(),
        None => "main".to_owned(),
    };
    let dst_ptr = match idx.get_fragment_by_name(dest_name.as_str()) {
        Ok(p) => p,
        Err(LookupError::NotFound) => {
            return Err(WorkflowError::FragmentNotFound(dest_name));
        },
        Err(LookupError::Ambiguous) => {
            return Err(WorkflowError::FragmentAmbiguous(dest_name));
        },
    };
    proof {
        assert(dest_name@ == spec_dest_alias(*cmd));
    }
    let ghost si = src_ptr.spec_idx();
    let ghost di = dst_ptr.spec_idx();
    let src_geo = src_ptr.get(idx).geometry;
    let dst_geo = dst_ptr.get(idx).geometry;
    let copy_geo = crate::segment::overlap(src_geo, dst_geo);
    if copy_geo.end <= copy_geo.start {
        proof {
            assert(idx.uniquely_named_at(cmd.source_fragment@, si));
            assert(idx.uniquely_named_at(spec_dest_alias(*cmd), di));
            assert(restore_resolved(*idx, *cmd, si, di));
        }
        return Ok(None);
    }
    let reference: Option<String> = if with_hash {
        if copy_geo == src_geo {
            match src_ptr.get(idx).stored_hash(HashIdentifier::Sha3_256) {
                Some(h) => Some(h.clone()),
                None => {
                    proof {
                        assert(idx.uniquely_named_at(cmd.source_fragment@, si));
                        assert(idx.uniquely_named_at(spec_dest_alias(*cmd), di));
                        assert(restore_resolved(*idx, *cmd, si, di));
                    }
                    return Err(WorkflowError::MissingSourceHash);
                },
            }
        } else if copy_geo == dst_geo {
            match dst_ptr.get(idx).stored_hash(HashIdentifier::Sha3_256) {
                Some(h) => Some(h.clone()),
                None => {
                    proof {
                        assert(idx.uniquely_named_at(cmd.source_fragment@, si));
                        assert(idx.uniquely_named_at(spec_dest_alias(*cmd), di));
                        assert(restore_resolved(*idx, *cmd, si, di));
                    }
                    return Err(WorkflowError::MissingDestinationHash);
                },
            }
        } else {
            proof {
                assert(idx.uniquely_named_at(cmd.source_fragment@, si));
                assert(idx.uniquely_named_at(spec_dest_alias(*cmd), di));
                assert(restore_resolved(*idx, *cmd, si, di));
            }
            return Err(WorkflowError::AmbiguousOverlapHash);
        }
    } else {
        None
    };
    let src_frag = src_ptr.get(idx);
    if !(matches!(&src_frag.location.data, crate::index::LocationData::File(f) if f.device.is_none())
        && src_frag.location.slice.is_none()) {
        let n = cmd.source_fragment.clone();
        proof {
            assert(idx.uniquely_named_at(n@, si));
            assert(!idx.fragments@[si].has_plain_file_path());
            assert(named_location_unsupported(*idx, n@));
        }
        return Err(WorkflowError::UnsupportedLocation(n));
    }
    let dst_frag = dst_ptr.get(idx);
    if !(matches!(&dst_frag.location.data, crate::index::LocationData::File(f) if f.device.is_none())
        && dst_frag.location.slice.is_none()) {
        proof {
            assert(dest_name@ == spec_dest_alias(*cmd));
            assert(idx.uniquely_named_at(dest_name@, di));
            assert(!idx.fragments@[di].has_plain_file_path());
            assert(named_location_unsupported(*idx, dest_name@));
        }
        return Err(WorkflowError::UnsupportedLocation(dest_name));
    }
    let plan = RestorePlan {
        source_path: src_ptr.get(idx).filepath().clone(),
        dest_path: dst_ptr.get(idx).filepath().clone(),
        copy: copy_geo,
        source_offset: copy_geo.start - src_geo.start,
        dest_offset: copy_geo.start - dst_geo.start,
        dest_len: dst_geo.len(),
        reference_hash: reference,
    };
    proof {
        assert(idx.uniquely_named_at(cmd.source_fragment@, si));
        assert(idx.uniquely_named_at(spec_dest_alias(*cmd), di));
        assert(restore_resolved(*idx, *cmd, si, di));
        assert(restore_plan_describes(*idx, *cmd, plan, si, di));
    }
    Ok(Some(plan))
}

/// Copy the planned overlap from the already positioned `source` into
/// `destination` and check the outcome: fewer bytes than the overlap
/// demands is a hard failure; with hashing on, a digest of the copied
/// bytes that differs from the selected reference is a hard failure — a
/// data-corruption signal.  A failure that ended the copy
/// without compromising the digest, after which all checks still pass, is
/// handed back as a warning.
pub fn perform_restore<S: ByteSource, D: ByteSink>(
    plan: &RestorePlan,
    source: &mut S,
    destination: &mut D,
    with_hash: bool,
) -> (r: Result<Option<CopyError>, WorkflowError>)
    requires
        old(source).stream().len() == plan.copy.spec_len(),
        plan.copy.wf(),
        with_hash ==> plan.reference_hash is Some,
    ensures
        match r {
            Ok(_) => {
                &&& final(destination).sunk() == old(destination).sunk() + old(source).stream()
                &&& (with_hash ==> (plan.reference_hash matches Some(rh) && rh@ == base64url_of(
                    sha3_256_of(old(source).stream()),
                )))
            },
            Err(WorkflowError::ShortCopy { written, expected }) => {
                &&& written < expected
                &&& expected == plan.copy.spec_len()
                &&& final(destination).sunk() == old(destination).sunk() + old(
                    source,
                ).stream().take(written as int)
            },
            Err(WorkflowError::HashMismatch { computed, reference }) => {
                &&& with_hash
                &&& Some(reference) == plan.reference_hash
                &&& computed@ != reference@
                &&& computed@ == base64url_of(sha3_256_of(old(source).stream()))
                &&& final(destination).sunk() == old(destination).sunk() + old(source).stream()
            },
            Err(_) => false,
        },
{
    let (hash, written, _fatal, res) = copy_and_optionally_hash(with_hash, source, destination);
    let warning: Option<CopyError> = match res {
        Err(e) => Some(e),
        Ok(_) => None,
    };
    let expected = plan.copy.len();
    if written != expected {
        return Err(WorkflowError::ShortCopy { written, expected });
    }
    proof {
        assert(old(source).stream().take(written as int) =~= old(source).stream());
    }
    if with_hash {
        let computed: String = match hash {
            Some(h) => h,
            None => unreached(),
        };
        let reference: &String = match &plan.reference_hash {
            Some(rh) => rh,
            None => unreached(),
        };
        if !(computed == *reference) {
            return Err(
                WorkflowError::HashMismatch { computed, reference: reference.clone() },
            );
        }
    }
    Ok(warning)
}

/// What plan-validate decided: which file to open, how many bytes of it the
/// fragment declares, and the stored digest to compare against, if any.
pub struct ValidatePlan {
    /// Path of the file backing the fragment.
    pub path: String,
    /// The fragment's declared length: how many bytes to read back.
    pub length: u64,
    /// The digest the fragment stores, if it stores one.
    pub reference_hash: Option<String>,
}

/// Everything a produced validate plan promises of the fragment at
/// position `i`.
pub open spec fn validate_plan_describes(idx: Index, plan: ValidatePlan, i: int) -> bool {
    &&& idx.fragments@[i].has_plain_file_path()
    &&& plan.path@ == idx.fragments@[i].spec_filepath()
    &&& plan.length == idx.fragments@[i].geometry.spec_len()
    &&& match plan.reference_hash {
        Some(h) => idx.fragments@[i].spec_stored_hash(HashIdentifier::Sha3_256) == Some(h@),
        None => idx.fragments@[i].spec_stored_hash(HashIdentifier::Sha3_256) is None,
    }
}

/// Decide what a validate-hash invocation has to do: resolve the fragment
/// and collect its backing path, declared length and stored digest.
#[verifier::rlimit(50)]
pub fn plan_validate(idx: &Index, fragment: &String) -> (r: Result<ValidatePlan, WorkflowError>)
    requires
        idx.wf(),
    ensures
        match r {
            Ok(plan) => exists|i: int|
                #[trigger] idx.uniquely_named_at(fragment@, i) && validate_plan_describes(
                    *idx,
                    plan,
                    i,
                ),
            Err(WorkflowError::FragmentNotFound(n)) => n@ == fragment@ && no_fragment_named(
                *idx,
                n@,
            ),
            Err(WorkflowError::FragmentAmbiguous(n)) => n@ == fragment@ && several_fragments_named(
                *idx,
                n@,
            ),
            Err(WorkflowError::UnsupportedLocation(n)) => n@ == fragment@
                && named_location_unsupported(*idx, n@),
            Err(_) => false,
        },
{
    let ptr = match idx.get_fragment_by_name(fragment.as_str()) {
        Ok(p) => p,
        Err(LookupError::NotFound) => {
            return Err(WorkflowError::FragmentNotFound(fragment.clone()));
        },
        Err(LookupError::Ambiguous) => {
            let n = fragment.clone();
            proof {
                assert(n@ == fragment@);
                assert(several_fragments_named(*idx, n@));
            }
            return Err(WorkflowError::FragmentAmbiguous(n));
        },
    };
    let ghost fi = ptr.spec_idx();
    let frag = ptr.get(idx);
    if !(matches!(&frag.location.data, crate::index::LocationData::File(f) if f.device.is_none())
        && frag.location.slice.is_none()) {
        let n = fragment.clone();
        proof {
            assert(idx.uniquely_named_at(n@, fi));
            assert(!idx.fragments@[fi].has_plain_file_path());
            assert(named_location_unsupported(*idx, n@));
        }
        return Err(WorkflowError::UnsupportedLocation(n));
    }
    let reference: Option<String> = match frag.stored_hash(HashIdentifier::Sha3_256) {
        Some(h) => Some(h.clone()),
        None => None,
    };
    let plan = ValidatePlan {
        path: frag.filepath().clone(),
        length: frag.geometry.len(),
        reference_hash: reference,
    };
    proof {
        assert(idx.uniquely_named_at(fragment@, fi));
        assert(validate_plan_describes(*idx, plan, fi));
    }
    Ok(plan)
}

/// The outcome of a validate-hash invocation.
#[derive(Debug)]
pub enum ValidateOutcome {
    /// The recomputed digest matches the stored one.
    Verified,
    /// The fragment stores no digest; the recomputed one is handed back,
    /// computed but unverifiable.
    Unverifiable(String),
}

/// Recompute the digest of the fragment's declared content from the
/// already bounded `source` and compare it to the stored reference.  A
/// mismatch is a hard failure; a missing reference degrades to
/// "computed but unverifiable", not an error.
pub fn perform_validate<S: ByteSource>(
    reference_hash: &Option<String>,
    source: &mut S,
    expected: u64,
) -> (r: Result<ValidateOutcome, WorkflowError>)
    requires
        old(source).stream().len() == expected,
    ensures
        match r {
            Ok(ValidateOutcome::Verified) => reference_hash matches Some(rh) && rh@ == base64url_of(
                sha3_256_of(old(source).stream()),
            ),
            Ok(ValidateOutcome::Unverifiable(h)) => reference_hash is None && h@ == base64url_of(
                sha3_256_of(old(source).stream()),
            ),
            Err(WorkflowError::ShortCopy { written, expected: exp }) => {
                &&& written < exp
                &&& exp == expected
                &&& final(source).stream() == old(source).stream().skip(written as int)
            },
            Err(WorkflowError::HashMismatch { computed, reference }) => {
                &&& Some(reference@) == match *reference_hash {
                    Some(rh) => Some(rh@),
                    None => None::<Seq<char>>,
                }
                &&& computed@ != reference@
                &&& computed@ == base64url_of(sha3_256_of(old(source).stream()))
            },
            Err(_) => false,
        },
{
    let (computed, consumed) = hash_data(source);
    if consumed != expected {
        return Err(WorkflowError::ShortCopy { written: consumed, expected });
    }
    proof {
        assert(old(source).stream().take(consumed as int) =~= old(source).stream());
    }
    match reference_hash {
        Some(rh) => {
            if computed == *rh {
                Ok(ValidateOutcome::Verified)
            } else {
                Err(WorkflowError::HashMismatch { computed, reference: rh.clone() })
            }
        },
        None => Ok(ValidateOutcome::Unverifiable(computed)),
    }
}

/// Law: creating an index with hashing on and then validating the "main"
/// fragment verifies.  Create stores the digest of the source's content;
/// validate reads the fragment's declared length back through the bounded
/// adapter, which reproduces that content exactly, so the recomputed digest
/// equals the stored one.
pub proof fn lemma_create_validate_round_trip(content: Seq<u8>)
    ensures
        base64url_of(sha3_256_of(crate::util::read_back(content, 0, content.len() as int)))
            == base64url_of(sha3_256_of(content)),
{
    assert(crate::util::read_back(content, 0, content.len() as int) =~= content);
}

} // verus!
