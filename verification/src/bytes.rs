//! Small verified helpers over byte slices: prefix tests, equality, and
//! copying a tail. Paths and entry contents are handled as plain bytes
//! throughout the crate.

use vstd::prelude::*;

verus! {

/// Validity of a byte sequence as UTF-8 text, as std's decoder judges it:
/// the result of `core::str::from_utf8` on the same bytes, which depends on
/// the bytes alone.
pub uninterp spec fn is_utf8(s: Seq<u8>) -> bool;

/// Relies on `core::str::from_utf8`: it returns `Ok` exactly when the input
/// is valid UTF-8.
#[verifier::external_body]
pub(crate) fn utf8_check(v: &[u8]) -> (r: bool)
    ensures
        r == is_utf8(v@),
{
    core::str::from_utf8(v).is_ok()
}

/// True when `p` is a leading run of `s`.
pub open spec fn is_prefix_of(p: Seq<u8>, s: Seq<u8>) -> bool {
    p.len() <= s.len() && s.take(p.len() as int) == p
}

/// True when `p` is a trailing run of `s`.
pub open spec fn is_suffix_of(p: Seq<u8>, s: Seq<u8>) -> bool {
    p.len() <= s.len() && s.skip(s.len() - p.len()) == p
}

/// Byte-for-byte equality of two slices.
pub fn bytes_eq(a: &[u8], b: &[u8]) -> (r: bool)
    ensures
        r == (a@ == b@),
{
    if a.len() != b.len() {
        return false;
    }
    let mut i: usize = 0;
    while i < a.len()
        invariant
            i <= a@.len(),
            a@.len() == b@.len(),
            forall|j: int| 0 <= j < i ==> a@[j] == b@[j],
        decreases a@.len() - i,
    {
        if a[i] != b[i] {
            return false;
        }
        i += 1;
    }
    proof {
        assert(a@ =~= b@);
    }
    true
}

/// True when the slice `s` starts with the slice `p`.
pub fn starts_with(s: &[u8], p: &[u8]) -> (r: bool)
    ensures
        r == is_prefix_of(p@, s@),
{
    if p.len() > s.len() {
        return false;
    }
    let mut i: usize = 0;
    while i < p.len()
        invariant
            i <= p@.len(),
            p@.len() <= s@.len(),
            forall|j: int| 0 <= j < i ==> s@[j] == p@[j],
        decreases p@.len() - i,
    {
        if s[i] != p[i] {
            proof {
                assert(!is_prefix_of(p@, s@)) by {
                    if is_prefix_of(p@, s@) {
                        assert(s@.take(p@.len() as int)[i as int] == s@[i as int]);
                    }
                }
            }
            return false;
        }
        i += 1;
    }
    proof {
        assert(s@.take(p@.len() as int) =~= p@);
    }
    true
}

/// Copies `s[k..]` into a fresh vector.
pub fn tail_from(s: &[u8], k: usize) -> (r: Vec<u8>)
    requires
        k <= s@.len(),
    ensures
        r@ == s@.skip(k as int),
{
    let mut r: Vec<u8> = Vec::new();
    let mut i: usize = k;
    while i < s.len()
        invariant
            k <= i <= s@.len(),
            r@ == s@.subrange(k as int, i as int),
        decreases s@.len() - i,
    {
        let c = s[i];
        r.push(c);
        proof {
            assert(r@ =~= s@.subrange(k as int, i + 1 as int));
        }
        i += 1;
    }
    proof {
        assert(s@.subrange(k as int, s@.len() as int) =~= s@.skip(k as int));
    }
    r
}

} // verus!
