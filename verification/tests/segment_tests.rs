use fragback::index::{Fragment, Index, Location, LocationData, Meta, Slice, ThisBuffer};
use fragback::segment::{determine_next_backup, get_fragment_group, next_uncovered, overlap};

fn s(start: u64, end: u64) -> Slice {
    Slice { start, end }
}

fn frag(groups: Vec<&str>, geometry: Slice) -> Fragment {
    Fragment {
        meta: Meta { name: vec![], comment: vec![] },
        location: Location { data: LocationData::ThisBuffer(ThisBuffer), slice: None },
        groups: groups.into_iter().map(|g| g.to_owned()).collect(),
        hashes: vec![],
        geometry,
        holes: vec![],
    }
}

#[test]
fn next_uncovered_empty_covering_returns_full_range() {
    assert_eq!(next_uncovered(s(0, 100), &vec![]), Some(s(0, 100)));
}

#[test]
fn next_uncovered_fully_covered_returns_none() {
    assert_eq!(next_uncovered(s(0, 100), &vec![s(0, 100)]), None);
    assert_eq!(next_uncovered(s(10, 90), &vec![s(0, 100)]), None);
    assert_eq!(next_uncovered(s(0, 100), &vec![s(0, 50), s(50, 100)]), None);
}

#[test]
fn next_uncovered_reports_tail_after_prefix_coverage() {
    assert_eq!(next_uncovered(s(0, 10000), &vec![s(0, 4000)]), Some(s(4000, 10000)));
}

#[test]
fn next_uncovered_clips_at_first_gap() {
    // Coverage at the front and further in: the gap between them is
    // reported, clipped at the start of the later coverage.
    assert_eq!(next_uncovered(s(0, 100), &vec![s(0, 20), s(50, 60)]), Some(s(20, 50)));
}

#[test]
fn next_uncovered_merges_overlapping_segments() {
    assert_eq!(next_uncovered(s(0, 100), &vec![s(0, 40), s(30, 60)]), Some(s(60, 100)));
}

#[test]
fn next_uncovered_merges_adjacent_segments() {
    assert_eq!(next_uncovered(s(0, 100), &vec![s(0, 40), s(40, 60)]), Some(s(60, 100)));
}

#[test]
fn next_uncovered_never_reports_a_covered_point() {
    // A segment contained in an earlier, longer one must not drag the
    // cursor backwards.
    assert_eq!(next_uncovered(s(0, 100), &vec![s(0, 80), s(10, 20)]), Some(s(80, 100)));
}

#[test]
fn next_uncovered_is_order_insensitive() {
    // All orderings of one covering set give the identical result.
    let a = vec![s(0, 20), s(50, 60), s(30, 60)];
    let b = vec![s(30, 60), s(0, 20), s(50, 60)];
    let c = vec![s(50, 60), s(30, 60), s(0, 20)];
    let full = s(0, 100);
    let r = next_uncovered(full, &a);
    assert_eq!(r, next_uncovered(full, &b));
    assert_eq!(r, next_uncovered(full, &c));
    assert_eq!(r, Some(s(20, 30)));
}

#[test]
fn next_uncovered_with_duplicate_segments() {
    assert_eq!(next_uncovered(s(0, 100), &vec![s(0, 30), s(0, 30)]), Some(s(30, 100)));
}

#[test]
fn next_uncovered_coverage_beyond_range_is_harmless() {
    assert_eq!(next_uncovered(s(0, 10), &vec![s(20, 30)]), Some(s(0, 10)));
}

#[test]
fn overlap_of_disjoint_ranges_is_empty() {
    let r = overlap(s(0, 10), s(20, 30));
    assert!(r.end <= r.start);
}

#[test]
fn overlap_of_nested_ranges_is_the_inner_one() {
    assert_eq!(overlap(s(0, 4000), s(0, 10000)), s(0, 4000));
}

#[test]
fn overlap_of_partially_overlapping_ranges() {
    assert_eq!(overlap(s(2000, 6000), s(0, 4000)), s(2000, 4000));
}

#[test]
fn group_ranges_picks_only_the_group() {
    let idx = Index {
        meta: Meta { name: vec![], comment: vec![] },
        fragments: vec![
            frag(vec!["main"], s(0, 100)),
            frag(vec!["backup"], s(0, 40)),
            frag(vec!["other"], s(40, 80)),
            frag(vec!["backup"], s(40, 60)),
        ],
    };
    assert_eq!(get_fragment_group(&idx, "backup"), vec![s(0, 40), s(40, 60)]);
    assert_eq!(get_fragment_group(&idx, "main"), vec![s(0, 100)]);
    assert_eq!(get_fragment_group(&idx, "absent"), Vec::<Slice>::new());
}

#[test]
fn determine_next_backup_walks_the_group() {
    let idx = Index {
        meta: Meta { name: vec![], comment: vec![] },
        fragments: vec![
            frag(vec!["main"], s(0, 10000)),
            frag(vec!["backup"], s(0, 4000)),
        ],
    };
    assert_eq!(determine_next_backup(&idx, s(0, 10000), "backup"), Some(s(4000, 10000)));
    assert_eq!(determine_next_backup(&idx, s(0, 10000), "nothing"), Some(s(0, 10000)));
    let done = Index {
        meta: Meta { name: vec![], comment: vec![] },
        fragments: vec![
            frag(vec!["main"], s(0, 10000)),
            frag(vec!["backup"], s(0, 6000)),
            frag(vec!["backup"], s(6000, 10000)),
        ],
    };
    assert_eq!(determine_next_backup(&done, s(0, 10000), "backup"), None);
}
