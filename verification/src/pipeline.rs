//! The whole decode pipeline short of I/O: assemble the entries into
//! records, resolve each record against the filter, and plan the file
//! writes. The surrounding binary performs exactly the planned writes.

use vstd::prelude::*;
use crate::assembler::{AssetRecord, ExtractError, assemble_all, entries_view};
use crate::model::{ErrKind, Rec, init_state, run};
use crate::planner::{OpModel, WriteOp, plan_of, plan_writes};
use crate::resolver::{filter_view, resolve_output_path, spec_resolve};

verus! {

/// The writes owed by a record stream, in record order: each in-scope
/// record's plan, nothing for records the filter excludes.
pub open spec fn plans_of(
    recs: Seq<Rec>,
    filter: Option<Seq<u8>>,
    include_meta: bool,
    dry_run: bool,
) -> Seq<OpModel>
    decreases recs.len(),
{
    if recs.len() == 0 {
        Seq::empty()
    } else {
        (match spec_resolve(recs[0].path, filter) {
            Some(out) => plan_of(recs[0], out, include_meta, dry_run),
            None => Seq::empty(),
        }) + plans_of(recs.drop_first(), filter, include_meta, dry_run)
    }
}

/// The whole decode: the exact write list a well-formed archive owes under
/// the given options, or the first failure of the assembly.
pub open spec fn spec_extract(
    es: Seq<(Seq<u8>, Seq<u8>)>,
    filter: Option<Seq<u8>>,
    include_meta: bool,
    dry_run: bool,
) -> Result<Seq<OpModel>, ErrKind> {
    let rr = run(init_state(), es);
    match rr.err {
        Some(k) => Err(k),
        None => Ok(plans_of(rr.recs, filter, include_meta, dry_run)),
    }
}

/// Decodes a whole entry list into the list of file writes the run must
/// perform, in dispatch order, exactly as [`spec_extract`] says.
pub fn extract_plan(
    entries: &Vec<(Vec<u8>, Vec<u8>)>,
    filter_prefix: Option<&Vec<u8>>,
    include_meta: bool,
    dry_run: bool,
) -> (r: Result<Vec<WriteOp>, ExtractError>)
    ensures
        (match spec_extract(
            entries_view(entries@),
            filter_view(filter_prefix),
            include_meta,
            dry_run,
        ) {
            Ok(ops) => r matches Ok(v) && v@.map_values(|op: WriteOp| op@) == ops,
            Err(k) => r matches Err(e) && e@ == k,
        }),
{
    let records = match assemble_all(entries) {
        Ok(v) => v,
        Err(e) => {
            return Err(e);
        },
    };
    let ghost recs = records@.map_values(|ar: AssetRecord| ar@);
    let mut ops: Vec<WriteOp> = Vec::new();
    let mut i: usize = 0;
    proof {
        assert(recs.skip(0) =~= recs);
    }
    while i < records.len()
        invariant
            i <= records@.len(),
            recs == records@.map_values(|ar: AssetRecord| ar@),
            plans_of(recs, filter_view(filter_prefix), include_meta, dry_run) == ops@.map_values(
                |op: WriteOp| op@,
            ) + plans_of(recs.skip(i as int), filter_view(filter_prefix), include_meta, dry_run),
        decreases records@.len() - i,
    {
        let rec: &AssetRecord = &records[i];
        proof {
            assert(recs[i as int] == rec@);
            assert(recs.skip(i as int)[0] == recs[i as int]);
            assert(recs.skip(i as int).drop_first() =~= recs.skip(i as int + 1));
        }
        let resolved = resolve_output_path(rec.logical_path.as_slice(), filter_prefix);
        match resolved {
            Some(out) => {
                let mut planned = plan_writes(rec, out, include_meta, dry_run);
                let ghost old_ops = ops@.map_values(|op: WriteOp| op@);
                let ghost planned_v = planned@.map_values(|op: WriteOp| op@);
                ops.append(&mut planned);
                proof {
                    let tail = plans_of(
                        recs.skip(i as int + 1),
                        filter_view(filter_prefix),
                        include_meta,
                        dry_run,
                    );
                    assert(ops@.map_values(|op: WriteOp| op@) =~= old_ops + planned_v);
                    assert((old_ops + planned_v) + tail =~= old_ops + (planned_v + tail));
                }
            },
            None => {},
        }
        i += 1;
    }
    proof {
        assert(recs.skip(records@.len() as int) =~= Seq::<Rec>::empty());
        assert(ops@.map_values(|op: WriteOp| op@) + Seq::<OpModel>::empty() =~= ops@.map_values(
            |op: WriteOp| op@,
        ));
    }
    Ok(ops)
}

/// A record stream plans no writes at all in a dry run.
proof fn lemma_plans_of_dry(recs: Seq<Rec>, filter: Option<Seq<u8>>, include_meta: bool)
    ensures
        plans_of(recs, filter, include_meta, true) == Seq::<OpModel>::empty(),
    decreases recs.len(),
{
    if recs.len() > 0 {
        lemma_plans_of_dry(recs.drop_first(), filter, include_meta);
        assert(plans_of(recs, filter, include_meta, true) =~= Seq::<OpModel>::empty());
    }
}

/// A dry run creates nothing: whatever the filter and metadata options, a
/// run with `dry_run` set that decodes successfully plans not a single file
/// or directory, while still decoding every entry.
pub proof fn lemma_dry_run_plans_nothing(
    es: Seq<(Seq<u8>, Seq<u8>)>,
    filter: Option<Seq<u8>>,
    include_meta: bool,
)
    requires
        run(init_state(), es).err is None,
    ensures
        spec_extract(es, filter, include_meta, true) == Ok::<Seq<OpModel>, ErrKind>(Seq::empty()),
{
    lemma_plans_of_dry(run(init_state(), es).recs, filter, include_meta);
}

} // verus!
