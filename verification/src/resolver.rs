//! The path resolver: decides whether a completed record is in scope of an
//! optional filter prefix and computes its on-disk relative path.
//!
//! Paths are '/'-separated byte strings. A filter prefix matches
//! component-wise, not as a raw string prefix: `foo/baz` covers `foo/baz`
//! itself and everything under `foo/baz/`, but not `foo/baz.txt`.

use vstd::prelude::*;
use crate::bytes::{is_prefix_of, bytes_eq, starts_with, tail_from};

verus! {

/// The path separator byte, `'/'`.
pub open spec fn slash() -> u8 {
    47u8
}

/// The view of an optional borrowed filter prefix.
pub open spec fn filter_view(fp: Option<&Vec<u8>>) -> Option<Seq<u8>> {
    match fp {
        None => None,
        Some(f) => Some(f@),
    }
}

/// What resolution returns: without a filter, the logical path verbatim;
/// with one, the logical path with the filter prefix stripped
/// component-wise, or nothing when the path is not under the prefix.
pub open spec fn spec_resolve(lp: Seq<u8>, fp: Option<Seq<u8>>) -> Option<Seq<u8>> {
    match fp {
        None => Some(lp),
        Some(f) => if lp == f {
            Some(Seq::empty())
        } else if is_prefix_of(f + seq![slash()], lp) {
            Some(lp.skip(f.len() as int + 1))
        } else if f.len() > 0 && f[f.len() - 1] == slash() && is_prefix_of(f, lp) {
            Some(lp.skip(f.len() as int))
        } else {
            None
        },
    }
}

/// Resolves a record's logical path against an optional filter prefix:
/// `Some` with the relative output path exactly when the record is in scope,
/// `None` exactly when the filter excludes it.
pub fn resolve_output_path(logical_path: &[u8], filter_prefix: Option<&Vec<u8>>) -> (r: Option<
    Vec<u8>,
>)
    ensures
        (match r {
            Some(v) => spec_resolve(logical_path@, filter_view(filter_prefix)) matches Some(sv)
                && v@ == sv,
            None => spec_resolve(logical_path@, filter_view(filter_prefix)) is None,
        }),
{
    match filter_prefix {
        None => {
            let out = tail_from(logical_path, 0);
            proof {
                assert(out@ =~= logical_path@);
            }
            Some(out)
        },
        Some(f) => {
            if bytes_eq(logical_path, f.as_slice()) {
                return Some(Vec::new());
            }
            if f.len() < logical_path.len() && starts_with(logical_path, f.as_slice())
                && logical_path[f.len()] == 47 {
                proof {
                    assert(logical_path@.take(f@.len() as int + 1) =~= f@ + seq![slash()]);
                }
                return Some(tail_from(logical_path, f.len() + 1));
            }
            proof {
                if is_prefix_of(f@ + seq![slash()], logical_path@) {
                    assert((f@ + seq![slash()]).len() == f@.len() as int + 1);
                    assert(logical_path@.take(f@.len() as int) =~= f@) by {
                        assert(forall|j: int|
                            0 <= j < f@.len() ==> logical_path@.take(f@.len() as int + 1)[j] == (f@
                                + seq![slash()])[j]);
                    }
                    assert(logical_path@[f@.len() as int] == (f@ + seq![slash()])[f@.len() as int]);
                }
            }
            if f.len() > 0 && f.as_slice()[f.len() - 1] == 47 && starts_with(
                logical_path,
                f.as_slice(),
            ) {
                return Some(tail_from(logical_path, f.len()));
            }
            None
        },
    }
}

/// With a filter prefix set, a successfully resolved output path is the
/// logical path with the prefix removed: putting the prefix (and, when it
/// did not already end in the separator, the separator itself) back in front
/// of the output recovers the logical path. A path the filter excludes
/// resolves to nothing and so produces no file.
pub proof fn lemma_resolve_strips_prefix(lp: Seq<u8>, f: Seq<u8>)
    requires
        spec_resolve(lp, Some(f)) is Some,
    ensures
        (lp == f + spec_resolve(lp, Some(f)).unwrap()) || (lp == f + seq![slash()] + spec_resolve(
            lp,
            Some(f),
        ).unwrap()),
{
    let out = spec_resolve(lp, Some(f)).unwrap();
    if lp == f {
        assert(lp =~= f + out);
    } else if is_prefix_of(f + seq![slash()], lp) {
        assert(lp =~= lp.take(f.len() as int + 1) + lp.skip(f.len() as int + 1));
        assert(lp =~= f + seq![slash()] + out);
    } else {
        assert(lp =~= lp.take(f.len() as int) + lp.skip(f.len() as int));
        assert(lp =~= f + out);
    }
}

} // verus!
