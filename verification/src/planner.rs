//! The write planner: given a resolved record, decides exactly which files a
//! write task must produce — the asset itself and, when metadata extraction
//! is enabled, a `.meta` sibling — and produces nothing at all in a dry run.

use vstd::prelude::*;
use crate::assembler::AssetRecord;
use crate::bytes::tail_from;
use crate::model::{Rec, meta_suffix};

verus! {

/// One pending file write: a path relative to the output base directory and
/// the bytes to put there.
#[derive(Debug)]
pub struct WriteOp {
    pub rel_path: Vec<u8>,
    pub contents: Vec<u8>,
}

/// The mathematical content of a [`WriteOp`].
pub struct OpModel {
    pub rel_path: Seq<u8>,
    pub contents: Seq<u8>,
}

impl View for WriteOp {
    type V = OpModel;

    open spec fn view(&self) -> OpModel {
        OpModel { rel_path: self.rel_path@, contents: self.contents@ }
    }
}

/// The writes one record owes: nothing in a dry run; otherwise its asset
/// bytes at the resolved path, followed by its metadata bytes at the same
/// path with `.meta` appended when metadata extraction is enabled.
pub open spec fn plan_of(rec: Rec, out_path: Seq<u8>, include_meta: bool, dry_run: bool) -> Seq<
    OpModel,
> {
    if dry_run {
        Seq::empty()
    } else if include_meta {
        seq![
            OpModel { rel_path: out_path, contents: rec.data },
            OpModel { rel_path: out_path + meta_suffix(), contents: rec.meta },
        ]
    } else {
        seq![OpModel { rel_path: out_path, contents: rec.data }]
    }
}

/// Appends the `.meta` suffix to a path.
pub fn append_meta_suffix(path: &[u8]) -> (r: Vec<u8>)
    ensures
        r@ == path@ + meta_suffix(),
{
    let mut r = tail_from(path, 0);
    r.push(46);
    r.push(109);
    r.push(101);
    r.push(116);
    r.push(97);
    proof {
        assert(r@ =~= path@ + meta_suffix());
    }
    r
}

/// Plans the writes of one resolved record, exactly as [`plan_of`] says.
pub fn plan_writes(record: &AssetRecord, out_path: Vec<u8>, include_meta: bool, dry_run: bool) -> (r:
    Vec<WriteOp>)
    ensures
        r@.map_values(|op: WriteOp| op@) == plan_of(record@, out_path@, include_meta, dry_run),
{
    let mut r: Vec<WriteOp> = Vec::new();
    if dry_run {
        proof {
            assert(r@.map_values(|op: WriteOp| op@) =~= plan_of(
                record@,
                out_path@,
                include_meta,
                dry_run,
            ));
        }
        return r;
    }
    let meta_path = append_meta_suffix(out_path.as_slice());
    let asset_bytes = tail_from(record.data.as_slice(), 0);
    proof {
        assert(asset_bytes@ =~= record.data@);
    }
    r.push(WriteOp { rel_path: out_path, contents: asset_bytes });
    if include_meta {
        let meta_bytes = tail_from(record.meta.as_slice(), 0);
        proof {
            assert(meta_bytes@ =~= record.meta@);
        }
        r.push(WriteOp { rel_path: meta_path, contents: meta_bytes });
    }
    proof {
        assert(r@.map_values(|op: WriteOp| op@) =~= plan_of(
            record@,
            out_path@,
            include_meta,
            dry_run,
        ));
    }
    r
}

} // verus!
