//! The record assembler: consumes archive entries strictly in archive order
//! and emits completed asset records, one group at a time. Its behaviour is
//! pinned to the step function of [`crate::model`].

use vstd::prelude::*;
use crate::bytes::{bytes_eq, starts_with, tail_from, utf8_check};
use crate::model::{
    AsmState, ErrKind, MemberKind, Outcome, Rec, boundary_state, init_state, member_of,
    name_asset, name_asset_meta, name_pathname, name_preview, run, step,
};

verus! {

/// One completed asset record: the unit of extraction.
#[derive(Debug)]
pub struct AssetRecord {
    /// The record's logical path (the `pathname` member's content, valid
    /// UTF-8 by construction).
    pub logical_path: Vec<u8>,
    /// The asset bytes (the `asset` member's content).
    pub data: Vec<u8>,
    /// The metadata bytes (the `asset.meta` member's content).
    pub meta: Vec<u8>,
}

impl View for AssetRecord {
    type V = Rec;

    open spec fn view(&self) -> Rec {
        Rec { path: self.logical_path@, data: self.data@, meta: self.meta@ }
    }
}

/// A fatal failure of a run.
#[derive(Debug)]
pub enum ExtractError {
    /// An entry path no longer matches the grouping invariant (defensive;
    /// the assembler proves it unreachable and never returns it).
    MalformedArchive,
    /// A member name outside the recognized four appeared inside an active
    /// group; carries the offending name.
    UnknownMember(Vec<u8>),
    /// A `pathname` member whose content is not valid UTF-8 text.
    EncodingError,
    /// A failed directory creation or file write (used by the surrounding
    /// binary; the assembler never returns it).
    IoError,
}

impl View for ExtractError {
    type V = ErrKind;

    open spec fn view(&self) -> ErrKind {
        match self {
            ExtractError::MalformedArchive => ErrKind::MalformedArchive,
            ExtractError::UnknownMember(n) => ErrKind::UnknownMember(n@),
            ExtractError::EncodingError => ErrKind::EncodingError,
            ExtractError::IoError => ErrKind::IoError,
        }
    }
}

/// Classifies a member name (an entry path with the group prefix removed).
fn classify(suf: &[u8]) -> (m: MemberKind)
    ensures
        m == member_of(suf@),
{
    let pat_asset: [u8; 5] = [97, 115, 115, 101, 116];
    let pat_meta: [u8; 10] = [97, 115, 115, 101, 116, 46, 109, 101, 116, 97];
    let pat_path: [u8; 8] = [112, 97, 116, 104, 110, 97, 109, 101];
    let pat_prev: [u8; 11] = [112, 114, 101, 118, 105, 101, 119, 46, 112, 110, 103];
    proof {
        assert(pat_asset@ =~= name_asset());
        assert(pat_meta@ =~= name_asset_meta());
        assert(pat_path@ =~= name_pathname());
        assert(pat_prev@ =~= name_preview());
    }
    if bytes_eq(suf, pat_asset.as_slice()) {
        MemberKind::Asset
    } else if bytes_eq(suf, pat_meta.as_slice()) {
        MemberKind::AssetMeta
    } else if bytes_eq(suf, pat_path.as_slice()) {
        MemberKind::Pathname
    } else if bytes_eq(suf, pat_prev.as_slice()) {
        MemberKind::Preview
    } else {
        MemberKind::Unknown
    }
}

/// The assembler's exclusive accumulator: the active group prefix and the
/// in-progress record with its seen-flags.
pub struct Assembler {
    prefix: Vec<u8>,
    data: Vec<u8>,
    meta: Vec<u8>,
    path: Vec<u8>,
    data_seen: bool,
    meta_seen: bool,
    path_seen: bool,
}

impl View for Assembler {
    type V = AsmState;

    closed spec fn view(&self) -> AsmState {
        AsmState {
            prefix: self.prefix@,
            data: self.data@,
            meta: self.meta@,
            path: self.path@,
            data_seen: self.data_seen,
            meta_seen: self.meta_seen,
            path_seen: self.path_seen,
        }
    }
}

impl Assembler {
    /// A fresh assembler with no active group.
    pub fn new() -> (a: Assembler)
        ensures
            a@ == init_state(),
    {
        Assembler {
            prefix: Vec::new(),
            data: Vec::new(),
            meta: Vec::new(),
            path: Vec::new(),
            data_seen: false,
            meta_seen: false,
            path_seen: false,
        }
    }

    /// Feeds one archive entry (path and full content) to the assembler.
    ///
    /// Returns `Ok(Some(record))` the moment a group completes,
    /// `Ok(None)` otherwise, and the exact error the model prescribes on a
    /// rejected entry, leaving the state untouched in that case.
    pub fn push_entry(&mut self, path: &[u8], content: Vec<u8>) -> (r: Result<
        Option<AssetRecord>,
        ExtractError,
    >)
        ensures
            final(self)@ == step(old(self)@, path@, content@).0,
            (match step(old(self)@, path@, content@).1 {
                Outcome::Advance => r matches Ok(o) && o matches None,
                Outcome::Emit(rec) => r matches Ok(o) && o matches Some(ar) && ar@ == rec,
                Outcome::Reject(k) => r matches Err(e) && e@ == k,
            }),
    {
        let boundary = self.prefix.len() == 0 || !starts_with(path, self.prefix.as_slice());
        if boundary {
            self.prefix = tail_from(path, 0);
            self.data = Vec::new();
            self.meta = Vec::new();
            self.path = Vec::new();
            self.data_seen = false;
            self.meta_seen = false;
            self.path_seen = false;
            proof {
                assert(path@.skip(0) =~= path@);
                assert(final(self)@ == boundary_state(path@));
            }
            return Ok(None);
        }
        let suffix = tail_from(path, self.prefix.len());
        let m = classify(suffix.as_slice());
        match m {
            MemberKind::Asset => {
                self.data = content;
                self.data_seen = true;
            },
            MemberKind::AssetMeta => {
                self.meta = content;
                self.meta_seen = true;
            },
            MemberKind::Pathname => {
                if !utf8_check(content.as_slice()) {
                    return Err(ExtractError::EncodingError);
                }
                self.path = content;
                self.path_seen = true;
            },
            MemberKind::Preview => {},
            MemberKind::Unknown => {
                return Err(ExtractError::UnknownMember(suffix));
            },
        }
        if self.data_seen && self.meta_seen && self.path_seen {
            let mut lp: Vec<u8> = Vec::new();
            let mut d: Vec<u8> = Vec::new();
            let mut md: Vec<u8> = Vec::new();
            core::mem::swap(&mut lp, &mut self.path);
            core::mem::swap(&mut d, &mut self.data);
            core::mem::swap(&mut md, &mut self.meta);
            self.prefix = Vec::new();
            self.data_seen = false;
            self.meta_seen = false;
            self.path_seen = false;
            let rec = AssetRecord { logical_path: lp, data: d, meta: md };
            proof {
                assert(final(self)@ == init_state());
            }
            return Ok(Some(rec));
        }
        Ok(None)
    }
}

/// The view of an entry list: each entry's path and content as sequences.
pub open spec fn entries_view(es: Seq<(Vec<u8>, Vec<u8>)>) -> Seq<(Seq<u8>, Seq<u8>)> {
    es.map_values(|e: (Vec<u8>, Vec<u8>)| (e.0@, e.1@))
}

/// Runs a fresh assembler over a whole list of entries, returning every
/// completed record in archive order, or the first failure.
pub fn assemble_all(entries: &Vec<(Vec<u8>, Vec<u8>)>) -> (r: Result<Vec<AssetRecord>, ExtractError>)
    ensures
        (match run(init_state(), entries_view(entries@)).err {
            None => r matches Ok(v) && v@.map_values(|ar: AssetRecord| ar@) == run(
                init_state(),
                entries_view(entries@),
            ).recs,
            Some(k) => r matches Err(e) && e@ == k,
        }),
{
    let ghost all = entries_view(entries@);
    let mut acc = Assembler::new();
    let mut recs: Vec<AssetRecord> = Vec::new();
    let mut i: usize = 0;
    proof {
        assert(all.skip(0) =~= all);
    }
    while i < entries.len()
        invariant
            i <= entries@.len(),
            all == entries_view(entries@),
            run(init_state(), all).err == run(acc@, all.skip(i as int)).err,
            run(init_state(), all).state == run(acc@, all.skip(i as int)).state,
            run(init_state(), all).recs == recs@.map_values(|ar: AssetRecord| ar@) + run(
                acc@,
                all.skip(i as int),
            ).recs,
        decreases entries@.len() - i,
    {
        let pair: &(Vec<u8>, Vec<u8>) = &entries[i];
        let content = tail_from(pair.1.as_slice(), 0);
        proof {
            assert(content@ =~= pair.1@);
            assert(all[i as int] == (pair.0@, pair.1@));
            assert(all.skip(i as int)[0] == all[i as int]);
            assert(all.skip(i as int).drop_first() =~= all.skip(i as int + 1));
        }
        let res = acc.push_entry(pair.0.as_slice(), content);
        match res {
            Ok(opt) => match opt {
                Some(rec) => {
                    let ghost old_map = recs@.map_values(|ar: AssetRecord| ar@);
                    recs.push(rec);
                    proof {
                        let rest = run(acc@, all.skip(i as int + 1)).recs;
                        assert(recs@.map_values(|ar: AssetRecord| ar@) =~= old_map + seq![rec@]);
                        assert((old_map + seq![rec@]) + rest =~= old_map + (seq![rec@] + rest));
                    }
                },
                None => {},
            },
            Err(e) => {
                return Err(e);
            },
        }
        i += 1;
    }
    proof {
        assert(all.skip(entries@.len() as int) =~= Seq::<(Seq<u8>, Seq<u8>)>::empty());
        assert(recs@.map_values(|ar: AssetRecord| ar@) + Seq::<Rec>::empty() =~= recs@.map_values(
            |ar: AssetRecord| ar@,
        ));
    }
    Ok(recs)
}

} // verus!
