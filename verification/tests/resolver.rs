use unitypack::resolver::resolve_output_path;

#[test]
fn no_filter_passes_the_path_verbatim() {
    let r = resolve_output_path(b"foo/bar.txt", None);
    assert_eq!(r.unwrap(), b"foo/bar.txt".to_vec());
}

#[test]
fn filter_strips_a_component_prefix() {
    let f = b"foo/baz".to_vec();
    let r = resolve_output_path(b"foo/baz/deep/x.txt", Some(&f));
    assert_eq!(r.unwrap(), b"deep/x.txt".to_vec());
}

#[test]
fn filter_matching_the_whole_path_leaves_an_empty_path() {
    let f = b"foo/baz".to_vec();
    let r = resolve_output_path(b"foo/baz", Some(&f));
    assert_eq!(r.unwrap(), Vec::<u8>::new());
}

#[test]
fn filter_is_component_aware_not_a_string_prefix() {
    let f = b"foo/baz".to_vec();
    assert_eq!(resolve_output_path(b"foo/baz.txt", Some(&f)), None);
}

#[test]
fn filter_with_trailing_separator_strips_it_too() {
    let f = b"foo/".to_vec();
    let r = resolve_output_path(b"foo/bar.txt", Some(&f));
    assert_eq!(r.unwrap(), b"bar.txt".to_vec());
}

#[test]
fn path_outside_the_filter_is_skipped() {
    let f = b"foo".to_vec();
    assert_eq!(resolve_output_path(b"other/bar.txt", Some(&f)), None);
    assert_eq!(resolve_output_path(b"fo", Some(&f)), None);
    assert_eq!(resolve_output_path(b"foobar/x", Some(&f)), None);
}

#[test]
fn empty_filter_behaves_like_no_match_unless_path_is_empty() {
    let f = Vec::<u8>::new();
    assert_eq!(resolve_output_path(b"", Some(&f)).unwrap(), Vec::<u8>::new());
    assert_eq!(resolve_output_path(b"/x", Some(&f)).unwrap(), b"x".to_vec());
    assert_eq!(resolve_output_path(b"x", Some(&f)), None);
}
