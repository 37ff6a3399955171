use fragback::index::{
    File, Fragment, HashIdentifier, Index, Location, LocationData, Meta, Slice, URI,
};
use fragback::io::{MemSink, MemSource, SeekSource};
use fragback::util::TruncateReadStream;
use fragback::workflow::{
    create, perform_restore, perform_validate, perform_write_backup, plan_restore, plan_validate,
    plan_write_backup, BackupStatus, CommandInvocation, CreateCommand, RestoreFromFragment,
    ValidateOutcome, WorkflowError,
};

fn pattern(n: usize) -> Vec<u8> {
    (0..n).map(|i| ((i * 7 + 3) % 256) as u8).collect()
}

const DIGEST_10000: &str = "Y2MDiQyOTyE7EtEJNP9kXXQRgTFoqPVhgzuCPKle4Ss";
const DIGEST_0_4000: &str = "UVruy8wGQI5L2ecrhUWyLt70W1br1j-cLOnXHP4gSpE";

fn create_args(no_hash: bool) -> CommandInvocation<CreateCommand> {
    CommandInvocation {
        index_file: "index.toml".to_owned(),
        index: None,
        command: CreateCommand { path: "data.bin".to_owned(), name: None, no_hash },
    }
}

fn create_index(content: &[u8], no_hash: bool) -> Index {
    let args = create_args(no_hash);
    let mut source = MemSource::new(content.to_vec());
    create(&args, &mut source, Some(content.len() as u64), "/abs/data.bin").unwrap()
}

fn file_frag(names: Vec<&str>, groups: Vec<&str>, geometry: Slice, hash: Option<&str>) -> Fragment {
    Fragment {
        meta: Meta {
            name: names.into_iter().map(|n| n.to_owned()).collect(),
            comment: vec![],
        },
        location: File { device: None, path: "/abs/file.bin".to_owned() }.as_location(),
        groups: groups.into_iter().map(|g| g.to_owned()).collect(),
        hashes: match hash {
            Some(h) => vec![(HashIdentifier::Sha3_256, h.to_owned())],
            None => vec![],
        },
        geometry,
        holes: vec![],
    }
}

#[test]
fn create_refuses_an_existing_index() {
    let mut args = create_args(false);
    args.index = Some(Index { meta: Meta { name: vec![], comment: vec![] }, fragments: vec![] });
    let mut source = MemSource::new(vec![]);
    let r = create(&args, &mut source, Some(0), "/abs/data.bin");
    assert!(matches!(r, Err(WorkflowError::IndexExists)));
}

#[test]
fn create_records_the_main_fragment() {
    let content = pattern(10000);
    let idx = create_index(&content, false);
    assert_eq!(idx.fragments.len(), 1);
    let main = &idx.fragments[0];
    assert!(main.is_named("main"));
    assert!(main.in_group("main"));
    assert_eq!(main.geometry, Slice { start: 0, end: 10000 });
    assert_eq!(main.filepath().as_str(), "/abs/data.bin");
    assert_eq!(main.stored_hash(HashIdentifier::Sha3_256).unwrap().as_str(), DIGEST_10000);
    // A fresh unique alias stands beside "main".
    assert_eq!(main.meta.name.len(), 2);
    assert_eq!(main.meta.name[1].len(), 36);
    // Both the as-given and the canonicalized path are recorded.
    assert_eq!(
        main.meta.comment,
        vec![
            "Relative path during fragment creation: data.bin".to_owned(),
            "Canonical path during fragment creation: /abs/data.bin".to_owned(),
        ],
    );
}

#[test]
fn create_records_the_given_index_alias() {
    let mut args = create_args(true);
    args.command.name = Some("box7".to_owned());
    let mut source = MemSource::new(vec![1u8, 2, 3]);
    let idx = create(&args, &mut source, Some(3), "/abs/data.bin").unwrap();
    assert_eq!(idx.meta.name, vec!["box7".to_owned()]);
    let unnamed = create_index(&[], true);
    assert!(unnamed.meta.name.is_empty());
}

#[test]
fn create_without_hash_stores_none() {
    let content = pattern(100);
    let idx = create_index(&content, true);
    assert!(idx.fragments[0].stored_hash(HashIdentifier::Sha3_256).is_none());
    assert_eq!(idx.fragments[0].geometry, Slice { start: 0, end: 100 });
}

#[test]
fn create_measures_length_when_seek_cannot() {
    let content = pattern(321);
    let args = create_args(true);
    let mut source = MemSource::new(content.clone());
    let idx = create(&args, &mut source, None, "/abs/data.bin").unwrap();
    assert_eq!(idx.fragments[0].geometry, Slice { start: 0, end: 321 });
}

#[test]
fn create_rejects_a_length_that_disagrees() {
    let content = pattern(300);
    let args = create_args(false);
    let mut source = MemSource::new(content);
    let r = create(&args, &mut source, Some(400), "/abs/data.bin");
    assert!(matches!(r, Err(WorkflowError::LengthMismatch { seek: 400, consumed: 300 })));
}

// Create on a source, then write one backup segment covering everything:
// the first call copies the full range, the second reports
// already-complete and writes nothing.
#[test]
fn scenario_full_backup_then_already_complete() {
    let content = pattern(10000);
    let mut idx = create_index(&content, false);

    let plan = plan_write_backup(&idx, "backup").unwrap().expect("something to back up");
    assert_eq!(plan.range, Slice { start: 0, end: 10000 });
    assert_eq!(plan.source_path.as_str(), "/abs/data.bin");

    let mut inner = MemSource::new(content.clone());
    inner.seek_abs(plan.range.start).unwrap();
    let mut source = TruncateReadStream::new(inner, plan.range.end - plan.range.start).unwrap();
    let mut dest = MemSink::new();
    let outcome = perform_write_backup(
        &mut idx,
        &plan,
        &mut source,
        &mut dest,
        true,
        "backup",
        "dest1.bin",
        "/abs/dest1.bin",
    )
    .unwrap();
    assert_eq!(outcome.status, BackupStatus::Complete);
    assert!(outcome.warning.is_none());
    assert_eq!(dest.data(), &content);
    assert_eq!(idx.fragments.len(), 2);
    let frag = &idx.fragments[1];
    assert_eq!(frag.geometry, Slice { start: 0, end: 10000 });
    assert!(frag.in_group("backup"));
    assert_eq!(frag.stored_hash(HashIdentifier::Sha3_256).unwrap().as_str(), DIGEST_10000);
    assert_eq!(frag.filepath().as_str(), "/abs/dest1.bin");
    // The recorded fragment carries one fresh 36-character alias, which can
    // never shadow the 4-character alias "main".
    assert_eq!(frag.meta.name.len(), 1);
    assert_eq!(frag.meta.name[0].len(), 36);
    assert_eq!(frag.stored_hash(HashIdentifier::Sha3_256).unwrap().len(), 43);

    // The index now covers everything: nothing left to write.
    assert!(plan_write_backup(&idx, "backup").unwrap().is_none());
}

// The first destination fills up after 4000 of 10000 bytes: the index
// records a fragment for exactly the written prefix, and the next
// invocation picks up at byte 4000.
#[test]
fn scenario_partial_backup_resumes_where_it_stopped() {
    let content = pattern(10000);
    let mut idx = create_index(&content, false);

    let plan = plan_write_backup(&idx, "backup").unwrap().unwrap();
    assert_eq!(plan.range, Slice { start: 0, end: 10000 });
    let mut inner = MemSource::new(content.clone());
    inner.seek_abs(0).unwrap();
    let mut source = TruncateReadStream::new(inner, 10000).unwrap();
    let mut dest1 = MemSink::with_capacity(4000);
    let outcome = perform_write_backup(
        &mut idx,
        &plan,
        &mut source,
        &mut dest1,
        true,
        "backup",
        "dest1.bin",
        "/abs/dest1.bin",
    )
    .unwrap();
    assert_eq!(outcome.status, BackupStatus::MoreRemaining);
    assert!(outcome.warning.is_some());
    assert_eq!(idx.fragments.len(), 2);
    let frag = &idx.fragments[1];
    assert_eq!(frag.geometry, Slice { start: 0, end: 4000 });
    assert_eq!(frag.stored_hash(HashIdentifier::Sha3_256).unwrap().as_str(), DIGEST_0_4000);
    assert_eq!(dest1.data(), &content[..4000].to_vec());

    // The next invocation computes the remainder.
    let plan2 = plan_write_backup(&idx, "backup").unwrap().unwrap();
    assert_eq!(plan2.range, Slice { start: 4000, end: 10000 });
    let mut inner2 = MemSource::new(content.clone());
    inner2.seek_abs(4000).unwrap();
    let mut source2 = TruncateReadStream::new(inner2, 6000).unwrap();
    let mut dest2 = MemSink::new();
    let outcome2 = perform_write_backup(
        &mut idx,
        &plan2,
        &mut source2,
        &mut dest2,
        true,
        "backup",
        "dest2.bin",
        "/abs/dest2.bin",
    )
    .unwrap();
    assert_eq!(outcome2.status, BackupStatus::Complete);
    assert!(outcome2.warning.is_none());
    assert_eq!(dest2.data(), &content[4000..].to_vec());
    assert_eq!(idx.fragments[2].geometry, Slice { start: 4000, end: 10000 });
}

#[test]
fn plan_write_backup_without_main_fragment_fails() {
    let idx = Index {
        meta: Meta { name: vec![], comment: vec![] },
        fragments: vec![file_frag(vec!["other"], vec!["main"], Slice { start: 0, end: 10 }, None)],
    };
    assert!(matches!(
        plan_write_backup(&idx, "backup"),
        Err(WorkflowError::FragmentNotFound(_))
    ));
}

#[test]
fn plan_write_backup_with_two_main_fragments_fails() {
    let idx = Index {
        meta: Meta { name: vec![], comment: vec![] },
        fragments: vec![
            file_frag(vec!["main"], vec!["main"], Slice { start: 0, end: 10 }, None),
            file_frag(vec!["main"], vec![], Slice { start: 0, end: 10 }, None),
        ],
    };
    assert!(matches!(
        plan_write_backup(&idx, "backup"),
        Err(WorkflowError::FragmentAmbiguous(_))
    ));
}

#[test]
fn plan_write_backup_rejects_odd_locations() {
    let mut frag = file_frag(vec!["main"], vec!["main"], Slice { start: 0, end: 10 }, None);
    frag.location = Location {
        data: LocationData::URI(URI { uri: "scheme://x".to_owned() }),
        slice: None,
    };
    let idx = Index { meta: Meta { name: vec![], comment: vec![] }, fragments: vec![frag] };
    assert!(matches!(
        plan_write_backup(&idx, "backup"),
        Err(WorkflowError::UnsupportedLocation(_))
    ));
}

// Restore where the source fragment covers [0,4000) of a [0,10000)
// destination: the overlap equals the source's whole geometry, so the
// source's digest is the reference; a corrupted backup is detected.
#[test]
fn scenario_restore_takes_reference_from_source() {
    let content = pattern(10000);
    let idx = Index {
        meta: Meta { name: vec![], comment: vec![] },
        fragments: vec![
            file_frag(vec!["main"], vec!["main"], Slice { start: 0, end: 10000 }, None),
            file_frag(vec!["b1"], vec!["backup"], Slice { start: 0, end: 4000 }, Some(DIGEST_0_4000)),
        ],
    };
    let cmd = RestoreFromFragment {
        source_fragment: "b1".to_owned(),
        dest_fragment: None,
        no_hash: false,
    };
    let plan = plan_restore(&idx, &cmd).unwrap().expect("overlapping");
    assert_eq!(plan.copy, Slice { start: 0, end: 4000 });
    assert_eq!(plan.source_offset, 0);
    assert_eq!(plan.dest_offset, 0);
    assert_eq!(plan.dest_len, 10000);
    assert_eq!(plan.reference_hash.as_ref().unwrap().as_str(), DIGEST_0_4000);

    // A good backup file restores and verifies.
    let mut inner = MemSource::new(content[..4000].to_vec());
    inner.seek_abs(plan.source_offset).unwrap();
    let mut source = TruncateReadStream::new(inner, plan.copy.end - plan.copy.start).unwrap();
    let mut dest = MemSink::new();
    dest.grow_to(plan.dest_len);
    dest.seek_to(plan.dest_offset).unwrap();
    let warning = perform_restore(&plan, &mut source, &mut dest, true).unwrap();
    assert!(warning.is_none());
    assert_eq!(dest.data().len(), 10000);
    assert_eq!(&dest.data()[..4000], &content[..4000]);
    assert!(dest.data()[4000..].iter().all(|b| *b == 0));

    // A corrupted backup file is a hard failure.
    let mut bad = content[..4000].to_vec();
    bad[123] ^= 0xff;
    let mut inner2 = MemSource::new(bad);
    inner2.seek_abs(0).unwrap();
    let mut source2 = TruncateReadStream::new(inner2, 4000).unwrap();
    let mut dest2 = MemSink::new();
    let r = perform_restore(&plan, &mut source2, &mut dest2, true);
    assert!(matches!(r, Err(WorkflowError::HashMismatch { .. })));
}

// Restore where the overlap is a strict sub-range of both geometries:
// no stored digest can vouch for it, so hashing must be disabled
// explicitly.
#[test]
fn scenario_restore_with_ambiguous_provenance_demands_no_hash() {
    let idx = Index {
        meta: Meta { name: vec![], comment: vec![] },
        fragments: vec![
            file_frag(vec!["d"], vec!["main"], Slice { start: 0, end: 4000 }, Some(DIGEST_0_4000)),
            file_frag(vec!["s"], vec!["backup"], Slice { start: 2000, end: 6000 }, Some(DIGEST_10000)),
        ],
    };
    let cmd = RestoreFromFragment {
        source_fragment: "s".to_owned(),
        dest_fragment: Some("d".to_owned()),
        no_hash: false,
    };
    assert!(matches!(plan_restore(&idx, &cmd), Err(WorkflowError::AmbiguousOverlapHash)));

    // Disabling hashing makes the same restore plannable.
    let cmd2 = RestoreFromFragment { no_hash: true, ..cmd };
    let plan = plan_restore(&idx, &cmd2).unwrap().unwrap();
    assert_eq!(plan.copy, Slice { start: 2000, end: 4000 });
    assert_eq!(plan.source_offset, 0);
    assert_eq!(plan.dest_offset, 2000);
    assert!(plan.reference_hash.is_none());
}

#[test]
fn restore_of_disjoint_fragments_is_a_no_op() {
    let idx = Index {
        meta: Meta { name: vec![], comment: vec![] },
        fragments: vec![
            file_frag(vec!["main"], vec!["main"], Slice { start: 0, end: 100 }, None),
            file_frag(vec!["far"], vec!["backup"], Slice { start: 200, end: 300 }, None),
        ],
    };
    let cmd = RestoreFromFragment {
        source_fragment: "far".to_owned(),
        dest_fragment: None,
        no_hash: false,
    };
    assert!(plan_restore(&idx, &cmd).unwrap().is_none());
}

#[test]
fn restore_missing_source_hash_is_an_error() {
    let idx = Index {
        meta: Meta { name: vec![], comment: vec![] },
        fragments: vec![
            file_frag(vec!["main"], vec!["main"], Slice { start: 0, end: 10000 }, None),
            file_frag(vec!["b1"], vec!["backup"], Slice { start: 0, end: 4000 }, None),
        ],
    };
    let cmd = RestoreFromFragment {
        source_fragment: "b1".to_owned(),
        dest_fragment: None,
        no_hash: false,
    };
    assert!(matches!(plan_restore(&idx, &cmd), Err(WorkflowError::MissingSourceHash)));
}

#[test]
fn restore_missing_destination_hash_is_an_error() {
    // The overlap equals the destination's whole geometry, so only the
    // destination's digest could vouch — and it stores none.
    let idx = Index {
        meta: Meta { name: vec![], comment: vec![] },
        fragments: vec![
            file_frag(vec!["d"], vec!["main"], Slice { start: 0, end: 4000 }, None),
            file_frag(vec!["s"], vec!["backup"], Slice { start: 0, end: 10000 }, Some(DIGEST_10000)),
        ],
    };
    let cmd = RestoreFromFragment {
        source_fragment: "s".to_owned(),
        dest_fragment: Some("d".to_owned()),
        no_hash: false,
    };
    assert!(matches!(plan_restore(&idx, &cmd), Err(WorkflowError::MissingDestinationHash)));
}

#[test]
fn restore_takes_reference_from_destination_when_it_is_covered() {
    // The overlap equals the destination's whole geometry but only part of
    // the source's: the destination's digest vouches.
    let idx = Index {
        meta: Meta { name: vec![], comment: vec![] },
        fragments: vec![
            file_frag(vec!["d"], vec!["main"], Slice { start: 0, end: 4000 }, Some(DIGEST_0_4000)),
            file_frag(vec!["s"], vec!["backup"], Slice { start: 0, end: 10000 }, Some(DIGEST_10000)),
        ],
    };
    let cmd = RestoreFromFragment {
        source_fragment: "s".to_owned(),
        dest_fragment: Some("d".to_owned()),
        no_hash: false,
    };
    let plan = plan_restore(&idx, &cmd).unwrap().unwrap();
    assert_eq!(plan.copy, Slice { start: 0, end: 4000 });
    assert_eq!(plan.reference_hash.as_ref().unwrap().as_str(), DIGEST_0_4000);
}

#[test]
fn restore_short_copy_is_an_error() {
    let content = pattern(4000);
    let idx = Index {
        meta: Meta { name: vec![], comment: vec![] },
        fragments: vec![
            file_frag(vec!["main"], vec!["main"], Slice { start: 0, end: 4000 }, None),
            file_frag(vec!["b1"], vec!["backup"], Slice { start: 0, end: 4000 }, Some(DIGEST_0_4000)),
        ],
    };
    let cmd = RestoreFromFragment {
        source_fragment: "b1".to_owned(),
        dest_fragment: None,
        no_hash: false,
    };
    let plan = plan_restore(&idx, &cmd).unwrap().unwrap();
    let mut inner = MemSource::new(content);
    inner.seek_abs(0).unwrap();
    let mut source = TruncateReadStream::new(inner, 4000).unwrap();
    // The destination rejects everything past byte 1000.
    let mut dest = MemSink::with_capacity(1000);
    let r = perform_restore(&plan, &mut source, &mut dest, true);
    assert!(matches!(r, Err(WorkflowError::ShortCopy { written: 1000, expected: 4000 })));
}

// Create with hashing on, then validate the "main" fragment against the
// same bytes: the round trip verifies.
#[test]
fn scenario_create_then_validate_verifies() {
    let content = pattern(10000);
    let idx = create_index(&content, false);
    let plan = plan_validate(&idx, &"main".to_owned()).unwrap();
    assert_eq!(plan.path.as_str(), "/abs/data.bin");
    assert_eq!(plan.length, 10000);
    let mut inner = MemSource::new(content);
    inner.seek_abs(0).unwrap();
    let mut source = TruncateReadStream::new(inner, plan.length).unwrap();
    let outcome = perform_validate(&plan.reference_hash, &mut source, plan.length).unwrap();
    assert!(matches!(outcome, ValidateOutcome::Verified));
}

#[test]
fn scenario_empty_file_round_trip() {
    let idx = create_index(&[], false);
    assert_eq!(idx.fragments[0].geometry, Slice { start: 0, end: 0 });
    assert_eq!(
        idx.fragments[0].stored_hash(HashIdentifier::Sha3_256).unwrap().as_str(),
        "p__G-L8e12ZRwUdWoGHWYvWA_03kO0n6gtgKS4D4Q0o",
    );
    let plan = plan_validate(&idx, &"main".to_owned()).unwrap();
    assert_eq!(plan.length, 0);
    let mut source = TruncateReadStream::new(MemSource::new(vec![]), 0).unwrap();
    let outcome = perform_validate(&plan.reference_hash, &mut source, 0).unwrap();
    assert!(matches!(outcome, ValidateOutcome::Verified));
}

#[test]
fn validate_detects_changed_bytes() {
    let content = pattern(10000);
    let idx = create_index(&content, false);
    let plan = plan_validate(&idx, &"main".to_owned()).unwrap();
    let mut changed = content.clone();
    changed[5000] ^= 1;
    let mut inner = MemSource::new(changed);
    inner.seek_abs(0).unwrap();
    let mut source = TruncateReadStream::new(inner, plan.length).unwrap();
    let r = perform_validate(&plan.reference_hash, &mut source, plan.length);
    assert!(matches!(r, Err(WorkflowError::HashMismatch { .. })));
}

#[test]
fn validate_without_stored_digest_is_unverifiable() {
    let content = pattern(10000);
    let idx = create_index(&content, true);
    let plan = plan_validate(&idx, &"main".to_owned()).unwrap();
    assert!(plan.reference_hash.is_none());
    let mut inner = MemSource::new(content);
    inner.seek_abs(0).unwrap();
    let mut source = TruncateReadStream::new(inner, plan.length).unwrap();
    let outcome = perform_validate(&plan.reference_hash, &mut source, plan.length).unwrap();
    match outcome {
        ValidateOutcome::Unverifiable(digest) => assert_eq!(digest.as_str(), DIGEST_10000),
        ValidateOutcome::Verified => panic!("nothing to verify against"),
    }
}

#[test]
fn validate_reads_a_short_file_as_zero_padded() {
    // The fragment declares 100 bytes but the physical file holds only 50:
    // the digest is computed over the zero-extended content, never an
    // error.
    let half: Vec<u8> = pattern(50);
    let idx = Index {
        meta: Meta { name: vec![], comment: vec![] },
        fragments: vec![
            file_frag(vec!["main"], vec!["main"], Slice { start: 0, end: 100 }, None),
        ],
    };
    let plan = plan_validate(&idx, &"main".to_owned()).unwrap();
    assert_eq!(plan.length, 100);
    let mut inner = MemSource::new(half);
    inner.seek_abs(0).unwrap();
    let mut source = TruncateReadStream::new(inner, 100).unwrap();
    let outcome = perform_validate(&plan.reference_hash, &mut source, 100).unwrap();
    match outcome {
        ValidateOutcome::Unverifiable(digest) => {
            assert_eq!(digest.as_str(), "RMo1hgEURZTAqc92U_nSNtqjELRGsEBYZU-I8kohNQg")
        },
        ValidateOutcome::Verified => panic!("nothing to verify against"),
    }
}

#[test]
fn use_index_demands_a_loaded_index() {
    let args = create_args(false);
    assert!(matches!(args.use_index(), Err(WorkflowError::IndexMissing)));
    let mut with_index = create_args(false);
    with_index.index = Some(Index {
        meta: Meta { name: vec![], comment: vec![] },
        fragments: vec![],
    });
    assert!(with_index.use_index().is_ok());
}

#[test]
fn lookup_by_name_distinguishes_missing_and_ambiguous() {
    let idx = Index {
        meta: Meta { name: vec![], comment: vec![] },
        fragments: vec![
            file_frag(vec!["a"], vec![], Slice { start: 0, end: 1 }, None),
            file_frag(vec!["b"], vec![], Slice { start: 0, end: 1 }, None),
            file_frag(vec!["b"], vec![], Slice { start: 0, end: 1 }, None),
        ],
    };
    assert!(idx.get_fragment_by_name("a").is_ok());
    assert!(matches!(
        idx.get_fragment_by_name("c"),
        Err(fragback::index::LookupError::NotFound)
    ));
    assert!(matches!(
        idx.get_fragment_by_name("b"),
        Err(fragback::index::LookupError::Ambiguous)
    ));
    let ptr = idx.get_fragment_by_name("a").unwrap();
    assert_eq!(ptr.idx(), 0);
    assert!(ptr.get(&idx).is_named("a"));
}
