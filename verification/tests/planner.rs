use unitypack::assembler::AssetRecord;
use unitypack::planner::plan_writes;

fn sample_record() -> AssetRecord {
    AssetRecord {
        logical_path: b"x/y.bin".to_vec(),
        data: b"data-bytes".to_vec(),
        meta: b"meta-bytes".to_vec(),
    }
}

#[test]
fn plan_with_meta_writes_asset_then_sibling() {
    let rec = sample_record();
    let ops = plan_writes(&rec, b"x/y.bin".to_vec(), true, false);
    assert_eq!(ops.len(), 2);
    assert_eq!(ops[0].rel_path, b"x/y.bin".to_vec());
    assert_eq!(ops[0].contents, b"data-bytes".to_vec());
    assert_eq!(ops[1].rel_path, b"x/y.bin.meta".to_vec());
    assert_eq!(ops[1].contents, b"meta-bytes".to_vec());
}

#[test]
fn plan_without_meta_writes_the_asset_alone() {
    let rec = sample_record();
    let ops = plan_writes(&rec, b"elsewhere.bin".to_vec(), false, false);
    assert_eq!(ops.len(), 1);
    assert_eq!(ops[0].rel_path, b"elsewhere.bin".to_vec());
    assert_eq!(ops[0].contents, b"data-bytes".to_vec());
}

#[test]
fn plan_in_a_dry_run_is_empty() {
    let rec = sample_record();
    let ops = plan_writes(&rec, b"x/y.bin".to_vec(), true, true);
    assert_eq!(ops.len(), 0);
}
