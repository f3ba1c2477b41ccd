use engineqa_backend::chunker::parse_and_chunk;
use engineqa_backend::indexer::{
    inventory_from_rows, needs_inventory, plan_index, replaces, DocInventory, IndexPlan, MarkdownIndexer,
    SourceDoc, StoreOp,
};
use engineqa_backend::reindex::{IndexResult, IndexTally};
use sha2::Digest;

fn doc(path: &str, content: &str) -> SourceDoc {
    SourceDoc { path: path.to_string(), content: content.to_string() }
}

fn sha256(s: &str) -> String {
    format!("{:x}", sha2::Sha256::digest(s.as_bytes()))
}

fn entry(doc_id: &str, hash: &str, chunks: usize) -> DocInventory {
    DocInventory { doc_id: doc_id.to_string(), hash: hash.to_string(), chunks }
}

fn ops_for<'a>(plan: &'a IndexPlan, doc_id: &str) -> Vec<&'a StoreOp> {
    plan.ops
        .iter()
        .filter(|op| match op {
            StoreOp::DeleteDoc { doc_id: d } => d == doc_id,
            StoreOp::WriteDoc { doc_id: d, .. } => d == doc_id,
        })
        .collect()
}

#[test]
fn unchanged_document_is_left_alone() {
    let content = "# A\nbody";
    let docs = vec![doc("a.md", content)];
    let inv = vec![entry("a.md", &sha256(content), 1)];
    let plan = plan_index(&docs, &inv, false, 100, 10);
    assert!(plan.ops.is_empty());
    assert_eq!(plan.indexed_files, 0);
    assert_eq!(plan.skipped_files, 1);
    assert_eq!(plan.deleted_chunks, 0);
}

#[test]
fn full_rebuild_reindexes_unchanged_document() {
    let content = "# A\nbody";
    let docs = vec![doc("a.md", content)];
    let inv = vec![entry("a.md", &sha256(content), 1)];
    let plan = plan_index(&docs, &inv, true, 100, 10);
    assert_eq!(plan.ops.len(), 2);
    assert_eq!(plan.indexed_files, 1);
}

#[test]
fn changed_document_is_deleted_then_written() {
    let content = "# A\nnew body\n# B\nmore";
    let docs = vec![doc("dir/a.md", content)];
    let inv = vec![entry("dir_a.md", "old-hash", 5)];
    let plan = plan_index(&docs, &inv, false, 100, 10);
    let ops = ops_for(&plan, "dir_a.md");
    assert_eq!(ops.len(), 2);
    assert!(matches!(ops[0], StoreOp::DeleteDoc { .. }));
    match ops[1] {
        StoreOp::WriteDoc { doc_hash, chunks, .. } => {
            assert_eq!(doc_hash, &sha256(content));
            assert_eq!(chunks.len(), parse_and_chunk(content, "dir/a.md", "dir_a.md", 100, 10).len());
            assert_eq!(chunks.len(), 2);
        }
        _ => panic!("expected a write"),
    }
    assert_eq!(plan.indexed_files, 1);
    assert_eq!(plan.deleted_chunks, 0);
}

#[test]
fn new_document_is_written() {
    let docs = vec![doc("new.md", "text")];
    let plan = plan_index(&docs, &Vec::new(), false, 100, 10);
    assert_eq!(plan.ops.len(), 2);
    assert_eq!(plan.total_files, 1);
}

#[test]
fn removed_document_is_deleted_and_counted() {
    let kept = "kept";
    let docs = vec![doc("kept.md", kept)];
    let inv = vec![entry("kept.md", &sha256(kept), 2), entry("gone.md", "h", 7)];
    for full in [false, true] {
        let plan = plan_index(&docs, &inv, full, 100, 10);
        let ops = ops_for(&plan, "gone.md");
        assert_eq!(ops.len(), 1);
        assert!(matches!(ops[0], StoreOp::DeleteDoc { .. }));
        assert_eq!(plan.deleted_chunks, 7);
    }
}

#[test]
fn empty_scan_plans_nothing() {
    let inv = vec![entry("a.md", "h", 3), entry("b.md", "h", 4)];
    let plan = plan_index(&Vec::new(), &inv, false, 100, 10);
    assert!(plan.ops.is_empty());
    assert_eq!(plan.deleted_chunks, 0);
    assert_eq!(plan.total_files, 0);
    assert!(!needs_inventory(&Vec::new()));
    assert!(needs_inventory(&vec![doc("a.md", "x")]));
    let result = IndexTally::start(&plan).finish(3);
    assert_eq!((result.total_files, result.deleted_chunks, result.failed_files, result.duration_ms), (0, 0, 0, 3));
}

#[test]
fn failed_delete_skips_the_write_and_counts_a_failed_file() {
    let docs = vec![doc("a.md", "one"), doc("b.md", "two")];
    let inv = vec![entry("gone.md", "h", 4)];
    let plan = plan_index(&docs, &inv, false, 100, 10);
    assert_eq!(plan.ops.len(), 5);
    assert!(replaces(&plan, 0));
    assert!(!replaces(&plan, 1));
    assert!(!replaces(&plan, 4));
    let mut tally = IndexTally::start(&plan);
    tally.record_delete(&plan, 0, false);
    assert!(!tally.should_write(&"a.md".to_string()));
    assert!(tally.should_write(&"b.md".to_string()));
    tally.record_delete(&plan, 2, true);
    tally.record_write(true, 1, 0);
    tally.record_delete(&plan, 4, false);
    let result = tally.finish(1);
    assert_eq!(result.failed_files, 1);
    assert_eq!(result.successful_chunks, 1);
    assert_eq!(result.indexed_files, 2);
    assert!(result.failed_files <= result.indexed_files);
}

#[test]
fn failed_write_counts_a_failed_file() {
    let plan = plan_index(&vec![doc("a.md", "one")], &Vec::new(), false, 100, 10);
    let mut tally = IndexTally::start(&plan);
    tally.record_delete(&plan, 0, true);
    tally.record_write(false, 0, 0);
    tally.record_write(false, 0, 0);
    let result = tally.finish(0);
    assert_eq!(result.failed_files, 1);
}

#[test]
fn inventory_counts_rows_and_keeps_last_hash() {
    let rows = vec![
        ("a".to_string(), "h1".to_string()),
        ("b".to_string(), "x".to_string()),
        ("a".to_string(), "h2".to_string()),
    ];
    let inv = inventory_from_rows(&rows);
    assert_eq!(inv.len(), 2);
    let a = inv.iter().find(|e| e.doc_id == "a").unwrap();
    let b = inv.iter().find(|e| e.doc_id == "b").unwrap();
    assert_eq!((a.hash.as_str(), a.chunks), ("h2", 2));
    assert_eq!((b.hash.as_str(), b.chunks), ("x", 1));
}

#[test]
fn indexer_rejects_overlap_not_below_size() {
    assert!(MarkdownIndexer::with_chunking("k".to_string(), 10, 10).is_none());
    assert!(MarkdownIndexer::with_chunking("k".to_string(), 10, 9).is_some());
    let idx = MarkdownIndexer::new("k".to_string());
    assert_eq!((idx.chunk_size, idx.overlap), (1000, 125));
}

#[test]
fn run_counts_accumulate() {
    let docs = vec![doc("a.md", "one"), doc("b.md", "two")];
    let plan = plan_index(&docs, &vec![entry("old.md", "h", 3)], false, 100, 10);
    let mut result = IndexResult::for_plan(&plan);
    result.record_chunks(2, 1);
    result.record_failed_file();
    assert_eq!(result.total_files, 2);
    assert_eq!(result.indexed_files, 2);
    assert_eq!(result.skipped_files, 0);
    assert_eq!(result.total_chunks, 3);
    assert_eq!(result.successful_chunks, 2);
    assert_eq!(result.failed_chunks, 1);
    assert_eq!(result.failed_files, 1);
    assert_eq!(result.deleted_chunks, 3);
    let empty = IndexResult::empty(5);
    assert_eq!((empty.total_files, empty.duration_ms), (0, 5));
}
