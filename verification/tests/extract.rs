use unitypack::assembler::{assemble_all, Assembler, ExtractError};
use unitypack::pipeline::extract_plan;

fn e(path: &str, content: &str) -> (Vec<u8>, Vec<u8>) {
    (path.as_bytes().to_vec(), content.as_bytes().to_vec())
}

/// Two complete groups: a1 holds "hello" at foo/bar.txt, a2 holds "world" at
/// foo/baz.txt.
fn two_group_archive() -> Vec<(Vec<u8>, Vec<u8>)> {
    vec![
        e("a1/", ""),
        e("a1/asset", "hello"),
        e("a1/asset.meta", "m1"),
        e("a1/pathname", "foo/bar.txt"),
        e("a2/", ""),
        e("a2/asset", "world"),
        e("a2/asset.meta", "m2"),
        e("a2/pathname", "foo/baz.txt"),
    ]
}

#[test]
fn two_groups_with_meta() {
    let entries = two_group_archive();
    let ops = extract_plan(&entries, None, true, false).unwrap();
    assert_eq!(ops.len(), 4);
    assert_eq!(ops[0].rel_path, b"foo/bar.txt".to_vec());
    assert_eq!(ops[0].contents, b"hello".to_vec());
    assert_eq!(ops[1].rel_path, b"foo/bar.txt.meta".to_vec());
    assert_eq!(ops[1].contents, b"m1".to_vec());
    assert_eq!(ops[2].rel_path, b"foo/baz.txt".to_vec());
    assert_eq!(ops[2].contents, b"world".to_vec());
    assert_eq!(ops[3].rel_path, b"foo/baz.txt.meta".to_vec());
    assert_eq!(ops[3].contents, b"m2".to_vec());
}

#[test]
fn two_groups_without_meta() {
    let entries = two_group_archive();
    let ops = extract_plan(&entries, None, false, false).unwrap();
    assert_eq!(ops.len(), 2);
    assert_eq!(ops[0].rel_path, b"foo/bar.txt".to_vec());
    assert_eq!(ops[1].rel_path, b"foo/baz.txt".to_vec());
}

#[test]
fn filter_keeps_only_records_under_it() {
    let entries = two_group_archive();
    let filter = b"foo".to_vec();
    let ops = extract_plan(&entries, Some(&filter), true, false).unwrap();
    assert_eq!(ops.len(), 4);
    assert_eq!(ops[0].rel_path, b"bar.txt".to_vec());
    assert_eq!(ops[1].rel_path, b"bar.txt.meta".to_vec());
    assert_eq!(ops[2].rel_path, b"baz.txt".to_vec());
    assert_eq!(ops[3].rel_path, b"baz.txt.meta".to_vec());
}

#[test]
fn filter_matches_whole_components_only() {
    // "foo/baz" covers foo/baz and foo/baz/..., but neither foo/bar.txt nor
    // foo/baz.txt, so nothing is extracted.
    let entries = two_group_archive();
    let filter = b"foo/baz".to_vec();
    let ops = extract_plan(&entries, Some(&filter), true, false).unwrap();
    assert_eq!(ops.len(), 0);
}

#[test]
fn dry_run_plans_nothing_but_still_decodes() {
    let entries = two_group_archive();
    let ops = extract_plan(&entries, None, true, true).unwrap();
    assert_eq!(ops.len(), 0);
}

#[test]
fn dry_run_still_rejects_unknown_members() {
    let entries = vec![e("a1/", ""), e("a1/asset", "x"), e("a1/thumbnail", "t")];
    let r = extract_plan(&entries, None, true, true);
    assert!(matches!(r, Err(ExtractError::UnknownMember(ref n)) if n == b"thumbnail"));
}

#[test]
fn record_emitted_the_moment_it_completes() {
    let mut a = Assembler::new();
    assert!(matches!(a.push_entry(b"a1/", b"".to_vec()), Ok(None)));
    assert!(matches!(a.push_entry(b"a1/asset", b"hello".to_vec()), Ok(None)));
    assert!(matches!(a.push_entry(b"a1/asset.meta", b"m1".to_vec()), Ok(None)));
    match a.push_entry(b"a1/pathname", b"foo/bar.txt".to_vec()) {
        Ok(Some(rec)) => {
            assert_eq!(rec.logical_path, b"foo/bar.txt".to_vec());
            assert_eq!(rec.data, b"hello".to_vec());
            assert_eq!(rec.meta, b"m1".to_vec());
        },
        other => panic!("expected a completed record, got {:?}", other),
    }
}

#[test]
fn member_order_within_a_group_does_not_matter() {
    let entries = vec![
        e("a1/", ""),
        e("a1/pathname", "p.txt"),
        e("a1/asset.meta", "m"),
        e("a1/asset", "d"),
    ];
    let recs = assemble_all(&entries).unwrap();
    assert_eq!(recs.len(), 1);
    assert_eq!(recs[0].logical_path, b"p.txt".to_vec());
}

#[test]
fn incomplete_group_never_emits() {
    // a1 lacks asset.meta; only a2 completes.
    let entries = vec![
        e("a1/", ""),
        e("a1/asset", "x"),
        e("a1/pathname", "lost.txt"),
        e("a2/", ""),
        e("a2/asset", "y"),
        e("a2/asset.meta", "m"),
        e("a2/pathname", "kept.txt"),
    ];
    let recs = assemble_all(&entries).unwrap();
    assert_eq!(recs.len(), 1);
    assert_eq!(recs[0].logical_path, b"kept.txt".to_vec());
}

#[test]
fn trailing_incomplete_group_is_dropped() {
    let entries = vec![
        e("a1/", ""),
        e("a1/asset", "x"),
        e("a1/asset.meta", "m"),
        e("a1/pathname", "kept.txt"),
        e("a2/", ""),
        e("a2/asset", "y"),
    ];
    let recs = assemble_all(&entries).unwrap();
    assert_eq!(recs.len(), 1);
    assert_eq!(recs[0].logical_path, b"kept.txt".to_vec());
}

#[test]
fn empty_archive_yields_no_records() {
    let entries: Vec<(Vec<u8>, Vec<u8>)> = vec![];
    let recs = assemble_all(&entries).unwrap();
    assert_eq!(recs.len(), 0);
}

#[test]
fn group_with_no_sub_entries_is_dropped() {
    // Two consecutive boundaries: the first group never gains a member.
    let entries = vec![
        e("a1/", ""),
        e("b1/", ""),
        e("b1/asset", "d"),
        e("b1/asset.meta", "m"),
        e("b1/pathname", "p"),
    ];
    let recs = assemble_all(&entries).unwrap();
    assert_eq!(recs.len(), 1);
    assert_eq!(recs[0].data, b"d".to_vec());
}

#[test]
fn preview_is_accepted_and_ignored() {
    let entries = vec![
        e("a1/", ""),
        e("a1/preview.png", "png-bytes"),
        e("a1/asset", "d"),
        e("a1/asset.meta", "m"),
        e("a1/pathname", "p"),
    ];
    let recs = assemble_all(&entries).unwrap();
    assert_eq!(recs.len(), 1);
}

#[test]
fn unknown_member_fails_with_its_name() {
    let entries = vec![e("a1/", ""), e("a1/asset", "x"), e("a1/extra.bin", "z")];
    let r = assemble_all(&entries);
    assert!(matches!(r, Err(ExtractError::UnknownMember(ref n)) if n == b"extra.bin"));
}

#[test]
fn invalid_pathname_text_fails_with_encoding_error() {
    let entries = vec![
        (b"a1/".to_vec(), Vec::new()),
        (b"a1/asset".to_vec(), b"x".to_vec()),
        (b"a1/asset.meta".to_vec(), b"m".to_vec()),
        (b"a1/pathname".to_vec(), vec![0xff, 0xfe, 0x20]),
    ];
    let r = assemble_all(&entries);
    assert!(matches!(r, Err(ExtractError::EncodingError)));
}

#[test]
fn valid_utf8_pathname_is_accepted() {
    let entries = vec![
        (b"a1/".to_vec(), Vec::new()),
        (b"a1/asset".to_vec(), b"x".to_vec()),
        (b"a1/asset.meta".to_vec(), b"m".to_vec()),
        (b"a1/pathname".to_vec(), "d\u{00e9}p\u{00f4}t/f.txt".as_bytes().to_vec()),
    ];
    let recs = assemble_all(&entries).unwrap();
    assert_eq!(recs.len(), 1);
    assert_eq!(recs[0].logical_path, "d\u{00e9}p\u{00f4}t/f.txt".as_bytes().to_vec());
}

#[test]
fn prefix_resets_after_emission() {
    // After a1's record completes the prefix is cleared, so a following
    // entry that still shares "a1/" opens a fresh group instead of joining
    // the finished one.
    let mut a = Assembler::new();
    assert!(matches!(a.push_entry(b"a1/", b"".to_vec()), Ok(None)));
    assert!(matches!(a.push_entry(b"a1/asset", b"d".to_vec()), Ok(None)));
    assert!(matches!(a.push_entry(b"a1/asset.meta", b"m".to_vec()), Ok(None)));
    assert!(matches!(a.push_entry(b"a1/pathname", b"p".to_vec()), Ok(Some(_))));
    // Were the old prefix still active, this would be the unknown member
    // "extra"; as a boundary it is consumed silently.
    assert!(matches!(a.push_entry(b"a1/extra", b"".to_vec()), Ok(None)));
}
