//! Mathematical model of the record assembler: the per-entry step function of
//! the grouping state machine and its iterated run over a whole archive.
//!
//! An archive is a sequence of (path, content) entries. Consecutive entries
//! sharing a path prefix form one group; within a group the part of the path
//! after the prefix names the member. A group becomes one record the moment
//! its `asset`, `asset.meta` and `pathname` members have all been seen.

use vstd::prelude::*;
use crate::bytes::{is_prefix_of, is_suffix_of, is_utf8};

verus! {

/// The `asset` member name.
pub open spec fn name_asset() -> Seq<u8> {
    seq![97u8, 115u8, 115u8, 101u8, 116u8]
}

/// The `asset.meta` member name.
pub open spec fn name_asset_meta() -> Seq<u8> {
    seq![97u8, 115u8, 115u8, 101u8, 116u8, 46u8, 109u8, 101u8, 116u8, 97u8]
}

/// The `pathname` member name.
pub open spec fn name_pathname() -> Seq<u8> {
    seq![112u8, 97u8, 116u8, 104u8, 110u8, 97u8, 109u8, 101u8]
}

/// The `preview.png` member name.
pub open spec fn name_preview() -> Seq<u8> {
    seq![112u8, 114u8, 101u8, 118u8, 105u8, 101u8, 119u8, 46u8, 112u8, 110u8, 103u8]
}

/// The `.meta` suffix appended to an output path for the metadata sibling.
pub open spec fn meta_suffix() -> Seq<u8> {
    seq![46u8, 109u8, 101u8, 116u8, 97u8]
}

/// The recognized kinds of sub-entry within a group.
#[derive(Clone, Copy, Debug, PartialEq, Eq, Structural)]
pub enum MemberKind {
    Asset,
    AssetMeta,
    Pathname,
    Preview,
    Unknown,
}

/// Classification of a member name (the path with the group prefix removed).
pub open spec fn member_of(suf: Seq<u8>) -> MemberKind {
    if suf == name_asset() {
        MemberKind::Asset
    } else if suf == name_asset_meta() {
        MemberKind::AssetMeta
    } else if suf == name_pathname() {
        MemberKind::Pathname
    } else if suf == name_preview() {
        MemberKind::Preview
    } else {
        MemberKind::Unknown
    }
}

/// State of the assembler: the active group prefix and the fields of the
/// in-progress record, with one seen-flag per expected member.
pub struct AsmState {
    pub prefix: Seq<u8>,
    pub data: Seq<u8>,
    pub meta: Seq<u8>,
    pub path: Seq<u8>,
    pub data_seen: bool,
    pub meta_seen: bool,
    pub path_seen: bool,
}

/// One completed record: its logical path, asset bytes and metadata bytes.
pub struct Rec {
    pub path: Seq<u8>,
    pub data: Seq<u8>,
    pub meta: Seq<u8>,
}

/// The failure taxonomy of a run.
pub enum ErrKind {
    /// An entry path no longer matches the grouping invariant (defensive;
    /// the step function never produces it).
    MalformedArchive,
    /// A member name outside the recognized four, carrying that name.
    UnknownMember(Seq<u8>),
    /// A `pathname` member whose content is not valid UTF-8 text.
    EncodingError,
    /// A failed directory creation or file write (produced by the
    /// surrounding binary, never by the assembler).
    IoError,
}

/// What one step of the assembler does besides updating its state.
pub enum Outcome {
    /// State advanced; nothing emitted.
    Advance,
    /// A record completed and was emitted.
    Emit(Rec),
    /// The run fails.
    Reject(ErrKind),
}

/// The state before any entry has been seen: no active group.
pub open spec fn init_state() -> AsmState {
    AsmState {
        prefix: Seq::empty(),
        data: Seq::empty(),
        meta: Seq::empty(),
        path: Seq::empty(),
        data_seen: false,
        meta_seen: false,
        path_seen: false,
    }
}

/// The state right after a group boundary: the boundary entry's path becomes
/// the new prefix and the in-progress record is reset.
pub open spec fn boundary_state(p: Seq<u8>) -> AsmState {
    AsmState {
        prefix: p,
        data: Seq::empty(),
        meta: Seq::empty(),
        path: Seq::empty(),
        data_seen: false,
        meta_seen: false,
        path_seen: false,
    }
}

/// An entry opens a new group when there is no active prefix or its path does
/// not start with the active prefix.
pub open spec fn is_boundary(s: AsmState, p: Seq<u8>) -> bool {
    s.prefix.len() == 0 || !is_prefix_of(s.prefix, p)
}

/// Stores the content of a recognized member into the state and marks it seen.
pub open spec fn absorb(s: AsmState, m: MemberKind, c: Seq<u8>) -> AsmState {
    match m {
        MemberKind::Asset => AsmState {
            prefix: s.prefix,
            data: c,
            meta: s.meta,
            path: s.path,
            data_seen: true,
            meta_seen: s.meta_seen,
            path_seen: s.path_seen,
        },
        MemberKind::AssetMeta => AsmState {
            prefix: s.prefix,
            data: s.data,
            meta: c,
            path: s.path,
            data_seen: s.data_seen,
            meta_seen: true,
            path_seen: s.path_seen,
        },
        MemberKind::Pathname => AsmState {
            prefix: s.prefix,
            data: s.data,
            meta: s.meta,
            path: c,
            data_seen: s.data_seen,
            meta_seen: s.meta_seen,
            path_seen: true,
        },
        _ => s,
    }
}

/// A record is complete exactly when all three expected members were seen.
pub open spec fn is_complete(s: AsmState) -> bool {
    s.data_seen && s.meta_seen && s.path_seen
}

/// The record held by a state.
pub open spec fn record_of(s: AsmState) -> Rec {
    Rec { path: s.path, data: s.data, meta: s.meta }
}

/// After a member was absorbed: emit the record and reset if it is complete,
/// otherwise keep accumulating.
pub open spec fn settle(s: AsmState) -> (AsmState, Outcome) {
    if is_complete(s) {
        (init_state(), Outcome::Emit(record_of(s)))
    } else {
        (s, Outcome::Advance)
    }
}

/// One step of the assembler on entry (p, c): the next state and the outcome.
pub open spec fn step(s: AsmState, p: Seq<u8>, c: Seq<u8>) -> (AsmState, Outcome) {
    if is_boundary(s, p) {
        (boundary_state(p), Outcome::Advance)
    } else {
        let suf = p.skip(s.prefix.len() as int);
        match member_of(suf) {
            MemberKind::Asset => settle(absorb(s, MemberKind::Asset, c)),
            MemberKind::AssetMeta => settle(absorb(s, MemberKind::AssetMeta, c)),
            MemberKind::Pathname => if is_utf8(c) {
                settle(absorb(s, MemberKind::Pathname, c))
            } else {
                (s, Outcome::Reject(ErrKind::EncodingError))
            },
            MemberKind::Preview => settle(s),
            MemberKind::Unknown => (s, Outcome::Reject(ErrKind::UnknownMember(suf))),
        }
    }
}

/// Result of running the assembler over a sequence of entries: the final
/// state, the records emitted before any failure, and the failure if one
/// occurred.
pub struct RunResult {
    pub state: AsmState,
    pub recs: Seq<Rec>,
    pub err: Option<ErrKind>,
}

/// Iterates `step` over the entries, collecting emitted records in order and
/// stopping at the first rejection.
pub open spec fn run(s: AsmState, es: Seq<(Seq<u8>, Seq<u8>)>) -> RunResult
    decreases es.len(),
{
    if es.len() == 0 {
        RunResult { state: s, recs: Seq::empty(), err: None }
    } else {
        let next = step(s, es[0].0, es[0].1);
        match next.1 {
            Outcome::Advance => run(next.0, es.drop_first()),
            Outcome::Emit(rec) => {
                let rest = run(next.0, es.drop_first());
                RunResult { state: rest.state, recs: seq![rec] + rest.recs, err: rest.err }
            },
            Outcome::Reject(e) => RunResult { state: next.0, recs: Seq::empty(), err: Some(e) },
        }
    }
}

/// Splitting a run at any point changes nothing: running the assembler over
/// `es1 + es2` emits first exactly the records of `es1`, then those of `es2`
/// continued from the reached state, in that order. In particular the record
/// stream preserves the archive order of the groups that produced it.
pub proof fn lemma_run_append(s: AsmState, es1: Seq<(Seq<u8>, Seq<u8>)>, es2: Seq<(Seq<u8>, Seq<u8>)>)
    requires
        run(s, es1).err is None,
    ensures
        run(s, es1 + es2).state == run(run(s, es1).state, es2).state,
        run(s, es1 + es2).err == run(run(s, es1).state, es2).err,
        run(s, es1 + es2).recs == run(s, es1).recs + run(run(s, es1).state, es2).recs,
    decreases es1.len(),
{
    if es1.len() == 0 {
        assert(es1 + es2 =~= es2);
        assert(run(s, es1).recs + run(run(s, es1).state, es2).recs =~= run(s, es2).recs);
    } else {
        let next = step(s, es1[0].0, es1[0].1);
        assert((es1 + es2)[0] == es1[0]);
        assert((es1 + es2).drop_first() =~= es1.drop_first() + es2);
        match next.1 {
            Outcome::Advance => {
                lemma_run_append(next.0, es1.drop_first(), es2);
            },
            Outcome::Emit(rec) => {
                lemma_run_append(next.0, es1.drop_first(), es2);
                let tail1 = run(next.0, es1.drop_first());
                let rest = run(run(s, es1).state, es2);
                assert(seq![rec] + (tail1.recs + rest.recs) =~= (seq![rec] + tail1.recs)
                    + rest.recs);
            },
            Outcome::Reject(_) => {
                assert(run(s, es1).err is Some);
            },
        }
    }
}

/// A record is emitted by a step only when the state reached by absorbing the
/// entry has all three seen-flags set — a group with fewer than its three
/// recognized sub-entries never reaches the record stream — and the emitted
/// record is exactly that state's accumulated fields.
pub proof fn lemma_emit_requires_complete(s: AsmState, p: Seq<u8>, c: Seq<u8>)
    ensures
        (match step(s, p, c).1 {
            Outcome::Emit(rec) => {
                let s2 = absorb(s, member_of(p.skip(s.prefix.len() as int)), c);
                is_complete(s2) && rec == record_of(s2) && !is_boundary(s, p)
            },
            _ => true,
        }),
{
}

/// Which seen-flag an expected member sets.
pub open spec fn flag_of(s: AsmState, m: MemberKind) -> bool {
    match m {
        MemberKind::Asset => s.data_seen,
        MemberKind::AssetMeta => s.meta_seen,
        MemberKind::Pathname => s.path_seen,
        _ => false,
    }
}

/// The member name of an expected member kind.
pub open spec fn name_of(m: MemberKind) -> Seq<u8> {
    match m {
        MemberKind::Asset => name_asset(),
        MemberKind::AssetMeta => name_asset_meta(),
        MemberKind::Pathname => name_pathname(),
        MemberKind::Preview => name_preview(),
        MemberKind::Unknown => Seq::empty(),
    }
}

/// A group can complete only through all three of its expected members: a
/// run whose remaining entries never end in one of the member names — so no
/// group can ever contain that member — emits no record at all, as long as
/// the member is still missing from the in-progress group. A group with
/// fewer than its three recognized sub-entries never reaches the record
/// stream.
pub proof fn lemma_missing_member_blocks_emission(
    s: AsmState,
    es: Seq<(Seq<u8>, Seq<u8>)>,
    m: MemberKind,
)
    requires
        m is Asset || m is AssetMeta || m is Pathname,
        !flag_of(s, m),
        forall|i: int| 0 <= i < es.len() ==> !is_suffix_of(name_of(m), #[trigger] es[i].0),
    ensures
        run(s, es).recs.len() == 0,
    decreases es.len(),
{
    if es.len() > 0 {
        let p = es[0].0;
        let c = es[0].1;
        let next = step(s, p, c);
        if !is_boundary(s, p) {
            let k = s.prefix.len() as int;
            let suf = p.skip(k);
            if member_of(suf) == m {
                assert(suf == name_of(m));
                assert(is_suffix_of(name_of(m), p)) by {
                    assert(p.skip(p.len() - name_of(m).len()) == suf);
                }
                assert(false);
            }
        }
        match next.1 {
            Outcome::Advance => {
                assert(!flag_of(next.0, m));
                lemma_missing_member_blocks_emission(next.0, es.drop_first(), m);
            },
            Outcome::Emit(_) => {
                assert(false);
            },
            Outcome::Reject(_) => {},
        }
    }
}

/// Inside an active group, a member name outside the recognized four is
/// rejected with `UnknownMember` carrying exactly that name — and
/// `UnknownMember` arises in no other way; recognized members are never
/// silently dropped into it.
pub proof fn lemma_unknown_member_rejects(s: AsmState, p: Seq<u8>, c: Seq<u8>)
    ensures
        (match step(s, p, c).1 {
            Outcome::Reject(k) => (k matches ErrKind::UnknownMember(u) ==> (!is_boundary(s, p)
                && member_of(p.skip(s.prefix.len() as int)) is Unknown && u == p.skip(
                s.prefix.len() as int,
            ))),
            _ => true,
        }),
        (!is_boundary(s, p) && member_of(p.skip(s.prefix.len() as int)) is Unknown) ==> (step(
            s,
            p,
            c,
        ).1 matches Outcome::Reject(k2) && (k2 matches ErrKind::UnknownMember(u2) && u2 == p.skip(
            s.prefix.len() as int,
        ))),
{
}

} // verus!
