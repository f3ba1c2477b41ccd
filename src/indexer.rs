//! Incremental indexing: document ids, the store's inventory, the plan of
//! store operations for a run, and the laws that plan obeys.

use vstd::prelude::*;
use crate::chunker::{chunks_of, chunks_view, parse_and_chunk, Chunk, ChunkView, SectionView};
use crate::text::{chars_of, collect_chars, compute_hash, sha256_hex};

verus! {

/// The document id for a path relative to the knowledge root: every `/` and
/// `\` becomes `_`.
pub open spec fn doc_id_of(path: Seq<char>) -> Seq<char> {
    path.map_values(|c: char| if c == '/' || c == '\\' { '_' } else { c })
}

pub fn compute_doc_id(path: &str) -> (r: String)
    ensures
        r@ == doc_id_of(path@),
{
    let chars = chars_of(path);
    let mut out: Vec<char> = Vec::new();
    let mut i: usize = 0;
    while i < chars.len()
        invariant
            i <= chars.len(),
            chars@ == path@,
            out@ == doc_id_of(chars@.take(i as int)),
        decreases chars.len() - i,
    {
        let c = chars[i];
        if c == '/' || c == '\\' {
            out.push('_');
        } else {
            out.push(c);
        }
        proof {
            assert(doc_id_of(chars@.take(i + 1)) =~= doc_id_of(chars@.take(i as int)).push(
                if c == '/' || c == '\\' { '_' } else { c },
            ));
        }
        i = i + 1;
    }
    proof {
        assert(chars@.take(chars.len() as int) =~= chars@);
    }
    collect_chars(out.as_slice())
}

/// Why an indexing pass could not run.
pub enum IndexerError {
    /// The knowledge root could not be read.
    IoError(String),
    /// The embedding service failed.
    ProviderError(crate::provider::ProviderError),
    /// The vector store failed.
    StoreError(crate::vector_store::VectorStoreError),
    /// A document could not be parsed.
    ParseError(String),
}

/// What the store records of one document: its whole-file hash and how
/// many points it holds.
pub struct DocInventory {
    pub doc_id: String,
    pub hash: String,
    pub chunks: usize,
}

pub struct InventoryView {
    pub doc_id: Seq<char>,
    pub hash: Seq<char>,
    pub chunks: nat,
}

impl View for DocInventory {
    type V = InventoryView;

    open spec fn view(&self) -> InventoryView {
        InventoryView { doc_id: self.doc_id@, hash: self.hash@, chunks: self.chunks as nat }
    }
}

pub open spec fn inventory_view(v: Seq<DocInventory>) -> Seq<InventoryView> {
    v.map_values(|e: DocInventory| e@)
}

/// One stored point's `(doc_id, whole-file hash)` as a pair of views.
pub open spec fn rows_view(rows: Seq<(String, String)>) -> Seq<(Seq<char>, Seq<char>)> {
    rows.map_values(|r: (String, String)| (r.0@, r.1@))
}

/// How many rows belong to document `d`.
pub open spec fn rows_of(rows: Seq<(Seq<char>, Seq<char>)>, d: Seq<char>) -> nat
    decreases rows.len(),
{
    if rows.len() == 0 {
        0
    } else {
        rows_of(rows.drop_last(), d) + if rows.last().0 == d { 1nat } else { 0nat }
    }
}

/// The hash of the last row that belongs to document `d`.
pub open spec fn last_hash_of(rows: Seq<(Seq<char>, Seq<char>)>, d: Seq<char>) -> Seq<char>
    decreases rows.len(),
{
    if rows.len() == 0 {
        Seq::empty()
    } else if rows.last().0 == d {
        rows.last().1
    } else {
        last_hash_of(rows.drop_last(), d)
    }
}

/// No two entries share a document id.
pub open spec fn distinct_ids(inv: Seq<InventoryView>) -> bool {
    forall|i: int, j: int|
        0 <= i < inv.len() && 0 <= j < inv.len() && i != j ==> #[trigger] inv[i].doc_id
            != #[trigger] inv[j].doc_id
}

/// The inventory holds one entry for each document that has rows, with the
/// hash of its last row and its number of rows.
pub open spec fn summarizes(inv: Seq<InventoryView>, rows: Seq<(Seq<char>, Seq<char>)>) -> bool {
    &&& distinct_ids(inv)
    &&& forall|i: int|
        0 <= i < inv.len() ==> {
            &&& #[trigger] inv[i].chunks == rows_of(rows, inv[i].doc_id)
            &&& inv[i].chunks > 0
            &&& inv[i].hash == last_hash_of(rows, inv[i].doc_id)
        }
    &&& forall|d: Seq<char>|
        rows_of(rows, d) > 0 ==> exists|i: int| 0 <= i < inv.len() && #[trigger] inv[i].doc_id == d
}

/// Aggregates the stored points' `(doc_id, whole-file hash)` pairs into one
/// inventory entry per document.
pub fn inventory_from_rows(rows: &Vec<(String, String)>) -> (r: Vec<DocInventory>)
    ensures
        summarizes(inventory_view(r@), rows_view(rows@)),
        inv_total(inventory_view(r@)) == rows@.len(),
{
    let ghost rv = rows_view(rows@);
    let mut inv: Vec<DocInventory> = Vec::new();
    let mut i: usize = 0;
    while i < rows.len()
        invariant
            i <= rows.len(),
            rv == rows_view(rows@),
            summarizes(inventory_view(inv@), rv.take(i as int)),
            inv_total(inventory_view(inv@)) == i,
        decreases rows.len() - i,
    {
        let doc_id = &rows[i].0;
        let hash = &rows[i].1;
        let ghost pre = rv.take(i as int);
        let ghost post = rv.take(i + 1);
        proof {
            assert(post.drop_last() =~= pre);
            assert(post.last() == (doc_id@, hash@));
        }
        let mut j: usize = 0;
        let mut found = false;
        while j < inv.len() && !found
            invariant
                j <= inv.len(),
                found ==> j < inv.len() && inv@[j as int].doc_id@ == doc_id@,
                forall|k: int| 0 <= k < j ==> (#[trigger] inv@[k]).doc_id@ != doc_id@,
            decreases inv.len() - j + if found { 0int } else { 1int },
        {
            if inv[j].doc_id == *doc_id {
                found = true;
            } else {
                j = j + 1;
            }
        }
        let ghost old_inv = inventory_view(inv@);
        if found {
            let count = inv[j].chunks;
            proof {
                assert(old_inv[j as int].chunks == rows_of(pre, doc_id@));
                assert(rows_of(pre, doc_id@) <= pre.len()) by {
                    lemma_rows_of_bound(pre, doc_id@);
                }
            }
            let entry = DocInventory { doc_id: doc_id.clone(), hash: hash.clone(), chunks: count + 1 };
            inv.set(j, entry);
            proof {
                assert(inventory_view(inv@) =~= old_inv.update(j as int, entry@));
                lemma_total_update(old_inv, j as int, entry@);
                assert forall|d: Seq<char>| rows_of(post, d) > 0 implies exists|k: int|
                    0 <= k < inventory_view(inv@).len() && #[trigger] inventory_view(inv@)[k].doc_id
                        == d by {
                    if d != doc_id@ {
                        assert(rows_of(post, d) == rows_of(pre, d));
                        let k = choose|k: int| 0 <= k < old_inv.len() && #[trigger] old_inv[k].doc_id == d;
                        assert(inventory_view(inv@)[k].doc_id == d);
                    } else {
                        assert(inventory_view(inv@)[j as int].doc_id == d);
                    }
                }
            }
        } else {
            let entry = DocInventory { doc_id: doc_id.clone(), hash: hash.clone(), chunks: 1 };
            proof {
                if rows_of(pre, doc_id@) > 0 {
                    let k = choose|k: int| 0 <= k < old_inv.len() && #[trigger] old_inv[k].doc_id == doc_id@;
                    assert(inv@[k].doc_id@ == doc_id@);
                }
            }
            inv.push(entry);
            proof {
                assert(inventory_view(inv@) =~= old_inv.push(entry@));
                assert(old_inv.push(entry@).drop_last() =~= old_inv);
                assert forall|d: Seq<char>| rows_of(post, d) > 0 implies exists|k: int|
                    0 <= k < inventory_view(inv@).len() && #[trigger] inventory_view(inv@)[k].doc_id
                        == d by {
                    if d != doc_id@ {
                        assert(rows_of(post, d) == rows_of(pre, d));
                        let k = choose|k: int| 0 <= k < old_inv.len() && #[trigger] old_inv[k].doc_id == d;
                        assert(inventory_view(inv@)[k].doc_id == d);
                    } else {
                        assert(inventory_view(inv@)[old_inv.len() as int].doc_id == d);
                    }
                }
            }
        }
        i = i + 1;
    }
    proof {
        assert(rv.take(rows.len() as int) =~= rv);
    }
    inv
}

proof fn lemma_total_update(inv: Seq<InventoryView>, j: int, e: InventoryView)
    requires
        0 <= j < inv.len(),
    ensures
        inv_total(inv.update(j, e)) == inv_total(inv) - inv[j].chunks + e.chunks,
    decreases inv.len(),
{
    let u = inv.update(j, e);
    if j == inv.len() - 1 {
        assert(u.drop_last() =~= inv.drop_last());
    } else {
        assert(u.drop_last() =~= inv.drop_last().update(j, e));
        lemma_total_update(inv.drop_last(), j, e);
    }
}

proof fn lemma_rows_of_bound(rows: Seq<(Seq<char>, Seq<char>)>, d: Seq<char>)
    ensures
        rows_of(rows, d) <= rows.len(),
    decreases rows.len(),
{
    if rows.len() > 0 {
        lemma_rows_of_bound(rows.drop_last(), d);
    }
}

/// A document found under the knowledge root: its path relative to the
/// root and its content.
pub struct SourceDoc {
    pub path: String,
    pub content: String,
}

pub struct SourceView {
    pub path: Seq<char>,
    pub content: Seq<char>,
}

impl View for SourceDoc {
    type V = SourceView;

    open spec fn view(&self) -> SourceView {
        SourceView { path: self.path@, content: self.content@ }
    }
}

pub open spec fn sources_view(v: Seq<SourceDoc>) -> Seq<SourceView> {
    v.map_values(|d: SourceDoc| d@)
}

/// A write to the vector store, in the order the plan gives.
pub enum StoreOp {
    /// Remove every point of a document.
    DeleteDoc { doc_id: String },
    /// Write the chunks of a document, recording its whole-file hash with them.
    WriteDoc { doc_id: String, doc_hash: String, chunks: Vec<Chunk> },
}

pub enum OpView {
    DeleteDoc { doc_id: Seq<char> },
    WriteDoc { doc_id: Seq<char>, doc_hash: Seq<char>, chunks: Seq<ChunkView> },
}

impl View for StoreOp {
    type V = OpView;

    open spec fn view(&self) -> OpView {
        match self {
            StoreOp::DeleteDoc { doc_id } => OpView::DeleteDoc { doc_id: doc_id@ },
            StoreOp::WriteDoc { doc_id, doc_hash, chunks } => OpView::WriteDoc {
                doc_id: doc_id@,
                doc_hash: doc_hash@,
                chunks: chunks_view(chunks@),
            },
        }
    }
}

impl OpView {
    pub open spec fn doc_id(self) -> Seq<char> {
        match self {
            OpView::DeleteDoc { doc_id } => doc_id,
            OpView::WriteDoc { doc_id, .. } => doc_id,
        }
    }
}

pub open spec fn ops_view(v: Seq<StoreOp>) -> Seq<OpView> {
    v.map_values(|o: StoreOp| o@)
}

/// The store operations of one reindex run, in order, and its counts.
pub struct IndexPlan {
    pub ops: Vec<StoreOp>,
    pub total_files: usize,
    pub indexed_files: usize,
    pub skipped_files: usize,
    pub deleted_chunks: usize,
}

/// The first inventory entry for document `d`.
pub open spec fn inv_lookup(inv: Seq<InventoryView>, d: Seq<char>) -> Option<InventoryView>
    decreases inv.len(),
{
    if inv.len() == 0 {
        None
    } else if inv[0].doc_id == d {
        Some(inv[0])
    } else {
        inv_lookup(inv.drop_first(), d)
    }
}

/// A document is indexed on a full rebuild, when the store has nothing for
/// it, or when its whole-file hash differs from the recorded one.
pub open spec fn needs_index(
    id: Seq<char>,
    hash: Seq<char>,
    inv: Seq<InventoryView>,
    full_rebuild: bool,
) -> bool {
    full_rebuild || match inv_lookup(inv, id) {
        None => true,
        Some(e) => e.hash != hash,
    }
}

pub open spec fn doc_selected(d: SourceView, inv: Seq<InventoryView>, full_rebuild: bool) -> bool {
    needs_index(doc_id_of(d.path), sha256_hex(d.content), inv, full_rebuild)
}

/// The operations for one document: when selected, delete its points and
/// then write its chunks.
pub open spec fn doc_ops(
    d: SourceView,
    inv: Seq<InventoryView>,
    full_rebuild: bool,
    size: nat,
    overlap: nat,
) -> Seq<OpView> {
    let id = doc_id_of(d.path);
    if doc_selected(d, inv, full_rebuild) {
        seq![
            OpView::DeleteDoc { doc_id: id },
            OpView::WriteDoc {
                doc_id: id,
                doc_hash: sha256_hex(d.content),
                chunks: chunks_of(id, d.path, d.content, size, overlap),
            },
        ]
    } else {
        Seq::empty()
    }
}

pub open spec fn docs_ops(
    docs: Seq<SourceView>,
    inv: Seq<InventoryView>,
    full_rebuild: bool,
    size: nat,
    overlap: nat,
) -> Seq<OpView>
    decreases docs.len(),
{
    if docs.len() == 0 {
        Seq::empty()
    } else {
        docs_ops(docs.drop_last(), inv, full_rebuild, size, overlap) + doc_ops(
            docs.last(),
            inv,
            full_rebuild,
            size,
            overlap,
        )
    }
}

pub open spec fn selected_count(docs: Seq<SourceView>, inv: Seq<InventoryView>, full_rebuild: bool) -> nat
    decreases docs.len(),
{
    if docs.len() == 0 {
        0
    } else {
        selected_count(docs.drop_last(), inv, full_rebuild) + if doc_selected(
            docs.last(),
            inv,
            full_rebuild,
        ) {
            1nat
        } else {
            0nat
        }
    }
}

pub open spec fn in_scan(docs: Seq<SourceView>, d: Seq<char>) -> bool {
    exists|i: int| 0 <= i < docs.len() && doc_id_of(#[trigger] docs[i].path) == d
}

/// Deletions for the documents the store holds that the scan no longer has.
pub open spec fn obsolete_ops(inv: Seq<InventoryView>, docs: Seq<SourceView>) -> Seq<OpView>
    decreases inv.len(),
{
    if inv.len() == 0 {
        Seq::empty()
    } else {
        obsolete_ops(inv.drop_last(), docs) + if in_scan(docs, inv.last().doc_id) {
            Seq::empty()
        } else {
            seq![OpView::DeleteDoc { doc_id: inv.last().doc_id }]
        }
    }
}

/// The points held by documents that the scan no longer has.
pub open spec fn obsolete_chunks(inv: Seq<InventoryView>, docs: Seq<SourceView>) -> nat
    decreases inv.len(),
{
    if inv.len() == 0 {
        0
    } else {
        obsolete_chunks(inv.drop_last(), docs) + if in_scan(docs, inv.last().doc_id) {
            0nat
        } else {
            inv.last().chunks
        }
    }
}

pub open spec fn inv_total(inv: Seq<InventoryView>) -> nat
    decreases inv.len(),
{
    if inv.len() == 0 {
        0
    } else {
        inv_total(inv.drop_last()) + inv.last().chunks
    }
}

/// All operations of a run: the selected documents' replacements in scan
/// order, then the deletions of documents no longer present. A scan that
/// found no documents plans nothing.
pub open spec fn plan_ops(
    docs: Seq<SourceView>,
    inv: Seq<InventoryView>,
    full_rebuild: bool,
    size: nat,
    overlap: nat,
) -> Seq<OpView> {
    if docs.len() == 0 {
        Seq::empty()
    } else {
        docs_ops(docs, inv, full_rebuild, size, overlap) + obsolete_ops(inv, docs)
    }
}

/// The points a run removes with the documents no longer present; none
/// when the scan found no documents.
pub open spec fn planned_deletions(inv: Seq<InventoryView>, docs: Seq<SourceView>) -> nat {
    if docs.len() == 0 {
        0
    } else {
        obsolete_chunks(inv, docs)
    }
}

fn find_entry(inv: &Vec<DocInventory>, d: &String) -> (r: Option<usize>)
    ensures
        match r {
            None => inv_lookup(inventory_view(inv@), d@) is None,
            Some(j) => j < inv.len() && inv_lookup(inventory_view(inv@), d@) == Some(
                inventory_view(inv@)[j as int],
            ),
        },
{
    let ghost iv = inventory_view(inv@);
    let mut j: usize = 0;
    assert(iv.subrange(0, iv.len() as int) =~= iv);
    while j < inv.len()
        invariant
            j <= inv.len(),
            iv == inventory_view(inv@),
            inv_lookup(iv, d@) == inv_lookup(iv.subrange(j as int, iv.len() as int), d@),
        decreases inv.len() - j,
    {
        let ghost rest = iv.subrange(j as int, iv.len() as int);
        if inv[j].doc_id == *d {
            assert(rest[0] == iv[j as int]);
            return Some(j);
        }
        assert(rest.drop_first() =~= iv.subrange(j + 1, iv.len() as int));
        j = j + 1;
    }
    None
}

fn contains_id(ids: &Vec<String>, d: &String) -> (r: bool)
    ensures
        r == exists|i: int| 0 <= i < ids.len() && (#[trigger] ids@[i])@ == d@,
{
    let mut i: usize = 0;
    while i < ids.len()
        invariant
            i <= ids.len(),
            forall|k: int| 0 <= k < i ==> (#[trigger] ids@[k])@ != d@,
        decreases ids.len() - i,
    {
        if ids[i] == *d {
            return true;
        }
        i = i + 1;
    }
    false
}

proof fn lemma_obsolete_bound(inv: Seq<InventoryView>, docs: Seq<SourceView>)
    ensures
        obsolete_chunks(inv, docs) <= inv_total(inv),
    decreases inv.len(),
{
    if inv.len() > 0 {
        lemma_obsolete_bound(inv.drop_last(), docs);
    }
}

proof fn lemma_total_prefix(inv: Seq<InventoryView>, i: int)
    requires
        0 <= i <= inv.len(),
    ensures
        inv_total(inv.take(i)) <= inv_total(inv),
    decreases inv.len() - i,
{
    if i < inv.len() {
        lemma_total_prefix(inv, i + 1);
        assert(inv.take(i + 1).drop_last() =~= inv.take(i));
    } else {
        assert(inv.take(i) =~= inv);
    }
}

proof fn lemma_selected_bound(docs: Seq<SourceView>, inv: Seq<InventoryView>, full_rebuild: bool)
    ensures
        selected_count(docs, inv, full_rebuild) <= docs.len(),
    decreases docs.len(),
{
    if docs.len() > 0 {
        lemma_selected_bound(docs.drop_last(), inv, full_rebuild);
    }
}

/// The store's inventory is read only when the scan found documents: an
/// empty scan ends the run with nothing done.
pub fn needs_inventory(docs: &Vec<SourceDoc>) -> (r: bool)
    ensures
        r == (docs@.len() > 0),
{
    docs.len() > 0
}

/// Whether operation `i` deletes a document's points to make way for the
/// write of the same document that follows it.
pub open spec fn replaces_at(ops: Seq<OpView>, i: int) -> bool {
    &&& 0 <= i
    &&& i + 1 < ops.len()
    &&& ops[i + 1] is WriteDoc
    &&& ops[i + 1].doc_id() == ops[i].doc_id()
}

impl StoreOp {
    pub fn doc_id(&self) -> (r: &String)
        ensures
            r@ == self@.doc_id(),
    {
        match self {
            StoreOp::DeleteDoc { doc_id } => doc_id,
            StoreOp::WriteDoc { doc_id, .. } => doc_id,
        }
    }
}

pub fn replaces(plan: &IndexPlan, i: usize) -> (r: bool)
    requires
        i < plan.ops.len(),
    ensures
        r == replaces_at(ops_view(plan.ops@), i as int),
{
    if i + 1 >= plan.ops.len() {
        return false;
    }
    let next = &plan.ops[i + 1];
    let is_write = match next {
        StoreOp::WriteDoc { .. } => true,
        StoreOp::DeleteDoc { .. } => false,
    };
    proof {
        assert(ops_view(plan.ops@)[i + 1] == next@);
        assert(ops_view(plan.ops@)[i as int] == plan.ops@[i as int]@);
    }
    is_write && *next.doc_id() == *plan.ops[i].doc_id()
}

/// Plans one reindex run over the scanned documents against the store's
/// inventory: which documents to replace, in which order, and which to
/// remove.
pub fn plan_index(
    docs: &Vec<SourceDoc>,
    inventory: &Vec<DocInventory>,
    full_rebuild: bool,
    size: usize,
    overlap: usize,
) -> (r: IndexPlan)
    requires
        overlap < size,
        inv_total(inventory_view(inventory@)) <= usize::MAX,
    ensures
        ops_view(r.ops@) == plan_ops(
            sources_view(docs@),
            inventory_view(inventory@),
            full_rebuild,
            size as nat,
            overlap as nat,
        ),
        r.total_files == docs.len(),
        r.indexed_files == selected_count(sources_view(docs@), inventory_view(inventory@), full_rebuild),
        r.skipped_files == docs.len() - r.indexed_files,
        r.deleted_chunks == planned_deletions(inventory_view(inventory@), sources_view(docs@)),
{
    if docs.len() == 0 {
        let ops: Vec<StoreOp> = Vec::new();
        proof {
            assert(ops_view(ops@) =~= Seq::<OpView>::empty());
        }
        return IndexPlan { ops, total_files: 0, indexed_files: 0, skipped_files: 0, deleted_chunks: 0 };
    }
    let ghost dv = sources_view(docs@);
    let ghost iv = inventory_view(inventory@);
    let mut ids: Vec<String> = Vec::new();
    let mut i: usize = 0;
    while i < docs.len()
        invariant
            i <= docs.len(),
            dv == sources_view(docs@),
            ids.len() == i,
            forall|k: int| 0 <= k < i ==> (#[trigger] ids@[k])@ == doc_id_of(dv[k].path),
        decreases docs.len() - i,
    {
        ids.push(compute_doc_id(docs[i].path.as_str()));
        i = i + 1;
    }
    let mut ops: Vec<StoreOp> = Vec::new();
    let mut indexed: usize = 0;
    i = 0;
    proof {
        assert(dv.take(0) =~= Seq::<SourceView>::empty());
        assert(ops_view(ops@) =~= Seq::<OpView>::empty());
    }
    while i < docs.len()
        invariant
            i <= docs.len(),
            overlap < size,
            dv == sources_view(docs@),
            iv == inventory_view(inventory@),
            ids.len() == docs.len(),
            forall|k: int| 0 <= k < docs.len() ==> (#[trigger] ids@[k])@ == doc_id_of(dv[k].path),
            ops_view(ops@) == docs_ops(dv.take(i as int), iv, full_rebuild, size as nat, overlap as nat),
            indexed == selected_count(dv.take(i as int), iv, full_rebuild),
            indexed <= i,
        decreases docs.len() - i,
    {
        let doc = &docs[i];
        let id = &ids[i];
        let hash = compute_hash(doc.content.as_str());
        let selected = if full_rebuild {
            true
        } else {
            match find_entry(inventory, id) {
                None => true,
                Some(j) => inventory[j].hash != hash,
            }
        };
        proof {
            assert(dv.take(i + 1).drop_last() =~= dv.take(i as int));
            assert(dv.take(i + 1).last() == doc@);
            assert(selected == doc_selected(doc@, iv, full_rebuild));
        }
        let ghost before = ops_view(ops@);
        if selected {
            let chunks = parse_and_chunk(doc.content.as_str(), doc.path.as_str(), id.as_str(), size, overlap);
            let del = StoreOp::DeleteDoc { doc_id: id.clone() };
            let write = StoreOp::WriteDoc { doc_id: id.clone(), doc_hash: hash, chunks };
            ops.push(del);
            ops.push(write);
            indexed = indexed + 1;
            proof {
                assert(ops_view(ops@) =~= before + doc_ops(doc@, iv, full_rebuild, size as nat, overlap as nat));
            }
        } else {
            proof {
                assert(ops_view(ops@) =~= before + doc_ops(doc@, iv, full_rebuild, size as nat, overlap as nat));
            }
        }
        i = i + 1;
    }
    proof {
        assert(dv.take(docs.len() as int) =~= dv);
    }
    let ghost scan_ops = ops_view(ops@);
    let mut deleted: usize = 0;
    let mut j: usize = 0;
    proof {
        assert(iv.take(0) =~= Seq::<InventoryView>::empty());
        assert(scan_ops + obsolete_ops(iv.take(0), dv) =~= scan_ops);
    }
    while j < inventory.len()
        invariant
            j <= inventory.len(),
            dv == sources_view(docs@),
            iv == inventory_view(inventory@),
            inv_total(iv) <= usize::MAX,
            ids.len() == docs.len(),
            forall|k: int| 0 <= k < docs.len() ==> (#[trigger] ids@[k])@ == doc_id_of(dv[k].path),
            ops_view(ops@) == scan_ops + obsolete_ops(iv.take(j as int), dv),
            deleted == obsolete_chunks(iv.take(j as int), dv),
        decreases inventory.len() - j,
    {
        let e = &inventory[j];
        let present = contains_id(&ids, &e.doc_id);
        proof {
            assert(iv.take(j + 1).drop_last() =~= iv.take(j as int));
            assert(iv.take(j + 1).last() == e@);
            if present {
                let k = choose|k: int| 0 <= k < ids.len() && (#[trigger] ids@[k])@ == e.doc_id@;
                assert(doc_id_of(dv[k].path) == e.doc_id@);
            } else {
                assert forall|k: int| 0 <= k < dv.len() implies doc_id_of(#[trigger] dv[k].path)
                    != e.doc_id@ by {
                    assert(ids@[k]@ == doc_id_of(dv[k].path));
                }
            }
            assert(present == in_scan(dv, e.doc_id@));
            lemma_obsolete_bound(iv.take(j + 1), dv);
            lemma_total_prefix(iv, j + 1);
        }
        let ghost before = ops_view(ops@);
        if !present {
            ops.push(StoreOp::DeleteDoc { doc_id: e.doc_id.clone() });
            deleted = deleted + e.chunks;
            proof {
                assert(ops_view(ops@) =~= before.push(OpView::DeleteDoc { doc_id: e.doc_id@ }));
                assert(ops_view(ops@) =~= scan_ops + obsolete_ops(iv.take(j + 1), dv));
            }
        } else {
            proof {
                assert(obsolete_ops(iv.take(j + 1), dv) =~= obsolete_ops(iv.take(j as int), dv));
            }
        }
        j = j + 1;
    }
    proof {
        assert(iv.take(inventory.len() as int) =~= iv);
        lemma_selected_bound(dv, iv, full_rebuild);
    }
    IndexPlan {
        ops,
        total_files: docs.len(),
        indexed_files: indexed,
        skipped_files: docs.len() - indexed,
        deleted_chunks: deleted,
    }
}

/// The operations of `ops` that touch document `d`, in order.
pub open spec fn ops_for(ops: Seq<OpView>, d: Seq<char>) -> Seq<OpView>
    decreases ops.len(),
{
    if ops.len() == 0 {
        Seq::empty()
    } else if ops.last().doc_id() == d {
        ops_for(ops.drop_last(), d).push(ops.last())
    } else {
        ops_for(ops.drop_last(), d)
    }
}

/// No two scanned documents share a document id.
pub open spec fn distinct_docs(docs: Seq<SourceView>) -> bool {
    forall|i: int, j: int|
        0 <= i < docs.len() && 0 <= j < docs.len() && i != j ==> doc_id_of(#[trigger] docs[i].path)
            != doc_id_of(#[trigger] docs[j].path)
}

proof fn lemma_ops_for_add(a: Seq<OpView>, b: Seq<OpView>, d: Seq<char>)
    ensures
        ops_for(a + b, d) == ops_for(a, d) + ops_for(b, d),
    decreases b.len(),
{
    if b.len() == 0 {
        assert(a + b =~= a);
        assert(ops_for(a, d) + ops_for(b, d) =~= ops_for(a, d));
    } else {
        lemma_ops_for_add(a, b.drop_last(), d);
        assert((a + b).drop_last() =~= a + b.drop_last());
        assert((a + b).last() == b.last());
        if b.last().doc_id() == d {
            assert(ops_for(a + b, d) =~= ops_for(a, d) + ops_for(b, d));
        }
    }
}

proof fn lemma_ops_for_single(op: OpView, d: Seq<char>)
    ensures
        ops_for(seq![op], d) == if op.doc_id() == d {
            seq![op]
        } else {
            Seq::<OpView>::empty()
        },
{
    assert(seq![op].drop_last() =~= Seq::<OpView>::empty());
    assert(seq![op].last() == op);
    assert(ops_for(Seq::<OpView>::empty(), d) == Seq::<OpView>::empty());
    if op.doc_id() == d {
        assert(Seq::<OpView>::empty().push(op) =~= seq![op]);
    }
}

proof fn lemma_doc_ops_for(
    doc: SourceView,
    inv: Seq<InventoryView>,
    full_rebuild: bool,
    size: nat,
    overlap: nat,
    d: Seq<char>,
)
    ensures
        ops_for(doc_ops(doc, inv, full_rebuild, size, overlap), d) == if doc_id_of(doc.path) == d {
            doc_ops(doc, inv, full_rebuild, size, overlap)
        } else {
            Seq::empty()
        },
{
    let o = doc_ops(doc, inv, full_rebuild, size, overlap);
    if o.len() > 0 {
        assert(o =~= seq![o[0]] + seq![o[1]]);
        lemma_ops_for_add(seq![o[0]], seq![o[1]], d);
        lemma_ops_for_single(o[0], d);
        lemma_ops_for_single(o[1], d);
        if doc_id_of(doc.path) == d {
            assert(seq![o[0]] + seq![o[1]] =~= o);
        } else {
            assert(Seq::<OpView>::empty() + Seq::<OpView>::empty() =~= Seq::<OpView>::empty());
        }
    } else {
        assert(ops_for(o, d) == Seq::<OpView>::empty());
    }
}

proof fn lemma_docs_ops_absent(
    docs: Seq<SourceView>,
    inv: Seq<InventoryView>,
    full_rebuild: bool,
    size: nat,
    overlap: nat,
    d: Seq<char>,
)
    requires
        !in_scan(docs, d),
    ensures
        ops_for(docs_ops(docs, inv, full_rebuild, size, overlap), d) == Seq::<OpView>::empty(),
    decreases docs.len(),
{
    if docs.len() > 0 {
        let pre = docs.drop_last();
        assert(!in_scan(pre, d)) by {
            if in_scan(pre, d) {
                let k = choose|k: int| 0 <= k < pre.len() && doc_id_of(#[trigger] pre[k].path) == d;
                assert(docs[k] == pre[k]);
            }
        }
        assert(doc_id_of(docs[docs.len() - 1].path) != d);
        lemma_docs_ops_absent(pre, inv, full_rebuild, size, overlap, d);
        lemma_ops_for_add(
            docs_ops(pre, inv, full_rebuild, size, overlap),
            doc_ops(docs.last(), inv, full_rebuild, size, overlap),
            d,
        );
        lemma_doc_ops_for(docs.last(), inv, full_rebuild, size, overlap, d);
        assert(Seq::<OpView>::empty() + Seq::<OpView>::empty() =~= Seq::<OpView>::empty());
    }
}

proof fn lemma_docs_ops_present(
    docs: Seq<SourceView>,
    inv: Seq<InventoryView>,
    full_rebuild: bool,
    size: nat,
    overlap: nat,
    i: int,
)
    requires
        distinct_docs(docs),
        0 <= i < docs.len(),
    ensures
        ops_for(docs_ops(docs, inv, full_rebuild, size, overlap), doc_id_of(docs[i].path)) == doc_ops(
            docs[i],
            inv,
            full_rebuild,
            size,
            overlap,
        ),
    decreases docs.len(),
{
    let d = doc_id_of(docs[i].path);
    let pre = docs.drop_last();
    let last = docs.len() - 1;
    lemma_ops_for_add(
        docs_ops(pre, inv, full_rebuild, size, overlap),
        doc_ops(docs.last(), inv, full_rebuild, size, overlap),
        d,
    );
    lemma_doc_ops_for(docs.last(), inv, full_rebuild, size, overlap, d);
    if i == last {
        assert(!in_scan(pre, d)) by {
            if in_scan(pre, d) {
                let k = choose|k: int| 0 <= k < pre.len() && doc_id_of(#[trigger] pre[k].path) == d;
                assert(docs[k] == pre[k]);
            }
        }
        lemma_docs_ops_absent(pre, inv, full_rebuild, size, overlap, d);
        assert(Seq::<OpView>::empty() + doc_ops(docs[i], inv, full_rebuild, size, overlap) =~= doc_ops(
            docs[i],
            inv,
            full_rebuild,
            size,
            overlap,
        ));
    } else {
        assert(doc_id_of(docs[last].path) != d);
        assert(distinct_docs(pre)) by {
            assert forall|a: int, b: int|
                0 <= a < pre.len() && 0 <= b < pre.len() && a != b implies doc_id_of(
                #[trigger] pre[a].path,
            ) != doc_id_of(#[trigger] pre[b].path) by {
                assert(pre[a] == docs[a] && pre[b] == docs[b]);
            }
        }
        assert(pre[i] == docs[i]);
        lemma_docs_ops_present(pre, inv, full_rebuild, size, overlap, i);
        assert(doc_ops(docs[i], inv, full_rebuild, size, overlap) + Seq::<OpView>::empty() =~= doc_ops(
            docs[i],
            inv,
            full_rebuild,
            size,
            overlap,
        ));
    }
}

proof fn lemma_obsolete_ops_scanned(inv: Seq<InventoryView>, docs: Seq<SourceView>, d: Seq<char>)
    requires
        in_scan(docs, d),
    ensures
        ops_for(obsolete_ops(inv, docs), d) == Seq::<OpView>::empty(),
    decreases inv.len(),
{
    if inv.len() > 0 {
        lemma_obsolete_ops_scanned(inv.drop_last(), docs, d);
        let tail = if in_scan(docs, inv.last().doc_id) {
            Seq::<OpView>::empty()
        } else {
            seq![OpView::DeleteDoc { doc_id: inv.last().doc_id }]
        };
        lemma_ops_for_add(obsolete_ops(inv.drop_last(), docs), tail, d);
        if tail.len() > 0 {
            lemma_ops_for_single(OpView::DeleteDoc { doc_id: inv.last().doc_id }, d);
        }
        assert(ops_for(tail, d) =~= Seq::<OpView>::empty());
        assert(Seq::<OpView>::empty() + Seq::<OpView>::empty() =~= Seq::<OpView>::empty());
    }
}

proof fn lemma_obsolete_ops_removed(inv: Seq<InventoryView>, docs: Seq<SourceView>, m: int)
    requires
        distinct_ids(inv),
        0 <= m < inv.len(),
        !in_scan(docs, inv[m].doc_id),
    ensures
        ops_for(obsolete_ops(inv, docs), inv[m].doc_id) == seq![
            OpView::DeleteDoc { doc_id: inv[m].doc_id },
        ],
    decreases inv.len(),
{
    let d = inv[m].doc_id;
    let pre = inv.drop_last();
    let tail = if in_scan(docs, inv.last().doc_id) {
        Seq::<OpView>::empty()
    } else {
        seq![OpView::DeleteDoc { doc_id: inv.last().doc_id }]
    };
    lemma_ops_for_add(obsolete_ops(pre, docs), tail, d);
    if tail.len() > 0 {
        lemma_ops_for_single(OpView::DeleteDoc { doc_id: inv.last().doc_id }, d);
    }
    if m == inv.len() - 1 {
        assert(ops_for(obsolete_ops(pre, docs), d) =~= Seq::<OpView>::empty()) by {
            lemma_obsolete_ops_not_held(pre, docs, d);
        }
        assert(ops_for(tail, d) =~= tail);
        assert(Seq::<OpView>::empty() + tail =~= tail);
    } else {
        assert(inv.last().doc_id != d);
        assert(ops_for(tail, d) =~= Seq::<OpView>::empty());
        assert(distinct_ids(pre)) by {
            assert forall|a: int, b: int|
                0 <= a < pre.len() && 0 <= b < pre.len() && a != b implies #[trigger] pre[a].doc_id
                != #[trigger] pre[b].doc_id by {
                assert(pre[a] == inv[a] && pre[b] == inv[b]);
            }
        }
        assert(pre[m] == inv[m]);
        lemma_obsolete_ops_removed(pre, docs, m);
        assert(seq![OpView::DeleteDoc { doc_id: d }] + Seq::<OpView>::empty() =~= seq![
            OpView::DeleteDoc { doc_id: d },
        ]);
    }
}

proof fn lemma_obsolete_ops_not_held(inv: Seq<InventoryView>, docs: Seq<SourceView>, d: Seq<char>)
    requires
        forall|k: int| 0 <= k < inv.len() ==> (#[trigger] inv[k]).doc_id != d,
    ensures
        ops_for(obsolete_ops(inv, docs), d) == Seq::<OpView>::empty(),
    decreases inv.len(),
{
    if inv.len() > 0 {
        let pre = inv.drop_last();
        assert forall|k: int| 0 <= k < pre.len() implies (#[trigger] pre[k]).doc_id != d by {
            assert(pre[k] == inv[k]);
        }
        lemma_obsolete_ops_not_held(pre, docs, d);
        let tail = if in_scan(docs, inv.last().doc_id) {
            Seq::<OpView>::empty()
        } else {
            seq![OpView::DeleteDoc { doc_id: inv.last().doc_id }]
        };
        lemma_ops_for_add(obsolete_ops(pre, docs), tail, d);
        if tail.len() > 0 {
            lemma_ops_for_single(OpView::DeleteDoc { doc_id: inv.last().doc_id }, d);
        }
        assert(inv[inv.len() - 1].doc_id != d);
        assert(ops_for(tail, d) =~= Seq::<OpView>::empty());
        assert(Seq::<OpView>::empty() + Seq::<OpView>::empty() =~= Seq::<OpView>::empty());
    }
}

proof fn lemma_obsolete_chunks_single(inv: Seq<InventoryView>, docs: Seq<SourceView>, m: int)
    requires
        0 <= m < inv.len(),
        !in_scan(docs, inv[m].doc_id),
        forall|k: int| 0 <= k < inv.len() && k != m ==> in_scan(docs, (#[trigger] inv[k]).doc_id),
    ensures
        obsolete_chunks(inv, docs) == inv[m].chunks,
    decreases inv.len(),
{
    let pre = inv.drop_last();
    if m == inv.len() - 1 {
        lemma_obsolete_chunks_none(pre, docs);
    } else {
        assert forall|k: int| 0 <= k < pre.len() && k != m implies in_scan(
            docs,
            (#[trigger] pre[k]).doc_id,
        ) by {
            assert(pre[k] == inv[k]);
        }
        assert(pre[m] == inv[m]);
        assert(in_scan(docs, inv[inv.len() - 1].doc_id));
        lemma_obsolete_chunks_single(pre, docs, m);
    }
}

proof fn lemma_obsolete_chunks_none(inv: Seq<InventoryView>, docs: Seq<SourceView>)
    requires
        forall|k: int| 0 <= k < inv.len() ==> in_scan(docs, (#[trigger] inv[k]).doc_id),
    ensures
        obsolete_chunks(inv, docs) == 0,
    decreases inv.len(),
{
    if inv.len() > 0 {
        let pre = inv.drop_last();
        assert forall|k: int| 0 <= k < pre.len() implies in_scan(docs, (#[trigger] pre[k]).doc_id) by {
            assert(pre[k] == inv[k]);
        }
        assert(in_scan(docs, inv[inv.len() - 1].doc_id));
        lemma_obsolete_chunks_none(pre, docs);
    }
}

/// Re-indexing without a full rebuild leaves a document whose whole-file
/// hash matches the store's record untouched: no deletion and no write
/// names it.
pub proof fn lemma_unchanged_document_untouched(
    docs: Seq<SourceView>,
    inv: Seq<InventoryView>,
    size: nat,
    overlap: nat,
    i: int,
)
    requires
        distinct_docs(docs),
        0 <= i < docs.len(),
        inv_lookup(inv, doc_id_of(docs[i].path)) is Some,
        inv_lookup(inv, doc_id_of(docs[i].path))->Some_0.hash == sha256_hex(docs[i].content),
    ensures
        ops_for(plan_ops(docs, inv, false, size, overlap), doc_id_of(docs[i].path))
            == Seq::<OpView>::empty(),
{
    let d = doc_id_of(docs[i].path);
    lemma_docs_ops_present(docs, inv, false, size, overlap, i);
    lemma_obsolete_ops_scanned(inv, docs, d);
    lemma_ops_for_add(docs_ops(docs, inv, false, size, overlap), obsolete_ops(inv, docs), d);
    assert(Seq::<OpView>::empty() + Seq::<OpView>::empty() =~= Seq::<OpView>::empty());
}

/// A document selected for indexing (new, changed, or on a full rebuild)
/// is touched by exactly two operations, in this order: the deletion of all
/// its points, then the write of the chunks of its current content.
pub proof fn lemma_changed_document_replaced(
    docs: Seq<SourceView>,
    inv: Seq<InventoryView>,
    full_rebuild: bool,
    size: nat,
    overlap: nat,
    i: int,
)
    requires
        distinct_docs(docs),
        0 <= i < docs.len(),
        doc_selected(docs[i], inv, full_rebuild),
    ensures
        ({
            let d = doc_id_of(docs[i].path);
            ops_for(plan_ops(docs, inv, full_rebuild, size, overlap), d) == seq![
                OpView::DeleteDoc { doc_id: d },
                OpView::WriteDoc {
                    doc_id: d,
                    doc_hash: sha256_hex(docs[i].content),
                    chunks: chunks_of(d, docs[i].path, docs[i].content, size, overlap),
                },
            ]
        }),
{
    let d = doc_id_of(docs[i].path);
    lemma_docs_ops_present(docs, inv, full_rebuild, size, overlap, i);
    lemma_obsolete_ops_scanned(inv, docs, d);
    lemma_ops_for_add(docs_ops(docs, inv, full_rebuild, size, overlap), obsolete_ops(inv, docs), d);
    let o = doc_ops(docs[i], inv, full_rebuild, size, overlap);
    assert(o + Seq::<OpView>::empty() =~= o);
}

/// A document the store holds but the scan no longer has is touched by one
/// operation, the deletion of all its points; when it is the only such
/// document, the run's deleted-chunk count is exactly its number of points.
pub proof fn lemma_removed_document_deleted(
    docs: Seq<SourceView>,
    inv: Seq<InventoryView>,
    full_rebuild: bool,
    size: nat,
    overlap: nat,
    m: int,
)
    requires
        docs.len() > 0,
        distinct_ids(inv),
        0 <= m < inv.len(),
        !in_scan(docs, inv[m].doc_id),
    ensures
        ops_for(plan_ops(docs, inv, full_rebuild, size, overlap), inv[m].doc_id) == seq![
            OpView::DeleteDoc { doc_id: inv[m].doc_id },
        ],
        (forall|k: int| 0 <= k < inv.len() && k != m ==> in_scan(docs, (#[trigger] inv[k]).doc_id))
            ==> planned_deletions(inv, docs) == inv[m].chunks,
{
    let d = inv[m].doc_id;
    lemma_docs_ops_absent(docs, inv, full_rebuild, size, overlap, d);
    lemma_obsolete_ops_removed(inv, docs, m);
    lemma_ops_for_add(docs_ops(docs, inv, full_rebuild, size, overlap), obsolete_ops(inv, docs), d);
    assert(Seq::<OpView>::empty() + seq![OpView::DeleteDoc { doc_id: d }] =~= seq![
        OpView::DeleteDoc { doc_id: d },
    ]);
    if forall|k: int| 0 <= k < inv.len() && k != m ==> in_scan(docs, (#[trigger] inv[k]).doc_id) {
        lemma_obsolete_chunks_single(inv, docs, m);
    }
}

/// Turns the documents under a knowledge root into chunks and plans what to
/// write to the store.
pub struct MarkdownIndexer {
    pub knowledge_dir: String,
    pub chunk_size: usize,
    pub overlap: usize,
}

impl MarkdownIndexer {
    pub open spec fn wf(&self) -> bool {
        self.overlap < self.chunk_size
    }

    /// An indexer with the default chunk size and overlap.
    pub fn new(knowledge_dir: String) -> (r: Self)
        ensures
            r.wf(),
            r.knowledge_dir == knowledge_dir,
            r.chunk_size == crate::chunker::DEFAULT_CHUNK_SIZE,
            r.overlap == crate::chunker::DEFAULT_OVERLAP,
    {
        MarkdownIndexer {
            knowledge_dir,
            chunk_size: crate::chunker::DEFAULT_CHUNK_SIZE,
            overlap: crate::chunker::DEFAULT_OVERLAP,
        }
    }

    /// An indexer with the given chunk size and overlap; the overlap must be
    /// smaller than the size.
    pub fn with_chunking(knowledge_dir: String, chunk_size: usize, overlap: usize) -> (r: Option<Self>)
        ensures
            r is Some <==> overlap < chunk_size,
            r is Some ==> r->Some_0.wf() && r->Some_0.knowledge_dir == knowledge_dir
                && r->Some_0.chunk_size == chunk_size && r->Some_0.overlap == overlap,
    {
        if overlap < chunk_size {
            Some(MarkdownIndexer { knowledge_dir, chunk_size, overlap })
        } else {
            None
        }
    }

    /// Plans one run over the scanned documents; see `plan_index`.
    pub fn plan(&self, docs: &Vec<SourceDoc>, inventory: &Vec<DocInventory>, full_rebuild: bool) -> (r:
        IndexPlan)
        requires
            self.wf(),
            inv_total(inventory_view(inventory@)) <= usize::MAX,
        ensures
            ops_view(r.ops@) == plan_ops(
                sources_view(docs@),
                inventory_view(inventory@),
                full_rebuild,
                self.chunk_size as nat,
                self.overlap as nat,
            ),
            r.total_files == docs.len(),
            r.indexed_files == selected_count(sources_view(docs@), inventory_view(inventory@), full_rebuild),
            r.skipped_files == docs.len() - r.indexed_files,
            r.deleted_chunks == planned_deletions(inventory_view(inventory@), sources_view(docs@)),
    {
        plan_index(docs, inventory, full_rebuild, self.chunk_size, self.overlap)
    }
}

/// A stored point as the laws below see it: its key parts and the
/// whole-file hash recorded with it.
pub struct PointView {
    pub doc_id: Seq<char>,
    pub chunk_id: Seq<char>,
    pub content_hash: Seq<char>,
    pub doc_hash: Seq<char>,
}

pub open spec fn chunk_point(doc_hash: Seq<char>, c: ChunkView) -> PointView {
    PointView { doc_id: c.doc_id, chunk_id: c.chunk_id, content_hash: c.hash, doc_hash }
}

pub open spec fn chunk_points(doc_hash: Seq<char>, chunks: Seq<ChunkView>) -> Seq<PointView> {
    chunks.map_values(|c: ChunkView| chunk_point(doc_hash, c))
}

/// The points of document `d`, in order.
pub open spec fn points_of(points: Seq<PointView>, d: Seq<char>) -> Seq<PointView>
    decreases points.len(),
{
    if points.len() == 0 {
        Seq::empty()
    } else if points.last().doc_id == d {
        points_of(points.drop_last(), d).push(points.last())
    } else {
        points_of(points.drop_last(), d)
    }
}

/// The points of every document but `d`, in order.
pub open spec fn without_doc(points: Seq<PointView>, d: Seq<char>) -> Seq<PointView>
    decreases points.len(),
{
    if points.len() == 0 {
        Seq::empty()
    } else if points.last().doc_id == d {
        without_doc(points.drop_last(), d)
    } else {
        without_doc(points.drop_last(), d).push(points.last())
    }
}

/// The store after one operation, when every chunk embeds: a deletion
/// removes all points of the document, a write adds a point per chunk.
pub open spec fn apply_op(points: Seq<PointView>, op: OpView) -> Seq<PointView> {
    match op {
        OpView::DeleteDoc { doc_id } => without_doc(points, doc_id),
        OpView::WriteDoc { doc_hash, chunks, .. } => points + chunk_points(doc_hash, chunks),
    }
}

pub open spec fn apply_ops(points: Seq<PointView>, ops: Seq<OpView>) -> Seq<PointView>
    decreases ops.len(),
{
    if ops.len() == 0 {
        points
    } else {
        apply_op(apply_ops(points, ops.drop_last()), ops.last())
    }
}

pub open spec fn all_of_doc(chunks: Seq<ChunkView>, d: Seq<char>) -> bool {
    forall|k: int| 0 <= k < chunks.len() ==> (#[trigger] chunks[k]).doc_id == d
}

/// Every write carries only chunks of the document it names.
pub open spec fn writes_own_chunks(ops: Seq<OpView>) -> bool {
    forall|k: int|
        0 <= k < ops.len() ==> match #[trigger] ops[k] {
            OpView::WriteDoc { doc_id, chunks, .. } => all_of_doc(chunks, doc_id),
            OpView::DeleteDoc { .. } => true,
        }
}

proof fn lemma_points_of_add(a: Seq<PointView>, b: Seq<PointView>, d: Seq<char>)
    ensures
        points_of(a + b, d) == points_of(a, d) + points_of(b, d),
    decreases b.len(),
{
    if b.len() == 0 {
        assert(a + b =~= a);
        assert(points_of(a, d) + points_of(b, d) =~= points_of(a, d));
    } else {
        lemma_points_of_add(a, b.drop_last(), d);
        assert((a + b).drop_last() =~= a + b.drop_last());
        assert((a + b).last() == b.last());
        if b.last().doc_id == d {
            assert(points_of(a + b, d) =~= points_of(a, d) + points_of(b, d));
        }
    }
}

proof fn lemma_points_of_without(points: Seq<PointView>, d: Seq<char>, e: Seq<char>)
    ensures
        points_of(without_doc(points, e), d) == if d == e {
            Seq::<PointView>::empty()
        } else {
            points_of(points, d)
        },
    decreases points.len(),
{
    if points.len() > 0 {
        lemma_points_of_without(points.drop_last(), d, e);
        let w = without_doc(points.drop_last(), e);
        if points.last().doc_id != e {
            assert(without_doc(points, e).drop_last() =~= w);
            assert(without_doc(points, e).last() == points.last());
        }
    }
}

proof fn lemma_without_points_of(points: Seq<PointView>, d: Seq<char>)
    ensures
        without_doc(points_of(points, d), d) == Seq::<PointView>::empty(),
    decreases points.len(),
{
    if points.len() > 0 {
        lemma_without_points_of(points.drop_last(), d);
        let p = points_of(points.drop_last(), d);
        if points.last().doc_id == d {
            assert(p.push(points.last()).drop_last() =~= p);
        }
    }
}

proof fn lemma_points_of_chunks(doc_hash: Seq<char>, chunks: Seq<ChunkView>, x: Seq<char>, d: Seq<char>)
    requires
        all_of_doc(chunks, x),
    ensures
        points_of(chunk_points(doc_hash, chunks), d) == if x == d {
            chunk_points(doc_hash, chunks)
        } else {
            Seq::<PointView>::empty()
        },
    decreases chunks.len(),
{
    if chunks.len() > 0 {
        let pre = chunks.drop_last();
        assert(all_of_doc(pre, x)) by {
            assert forall|k: int| 0 <= k < pre.len() implies (#[trigger] pre[k]).doc_id == x by {
                assert(pre[k] == chunks[k]);
            }
        }
        lemma_points_of_chunks(doc_hash, pre, x, d);
        let cp = chunk_points(doc_hash, chunks);
        assert(cp.drop_last() =~= chunk_points(doc_hash, pre));
        assert(cp.last().doc_id == chunks[chunks.len() - 1].doc_id);
        if x == d {
            assert(cp =~= chunk_points(doc_hash, pre).push(cp.last()));
        }
    }
}

proof fn lemma_apply_op_points_of(points: Seq<PointView>, op: OpView, d: Seq<char>)
    requires
        match op {
            OpView::WriteDoc { doc_id, chunks, .. } => all_of_doc(chunks, doc_id),
            OpView::DeleteDoc { .. } => true,
        },
    ensures
        points_of(apply_op(points, op), d) == if op.doc_id() == d {
            apply_op(points_of(points, d), op)
        } else {
            points_of(points, d)
        },
{
    match op {
        OpView::DeleteDoc { doc_id } => {
            lemma_points_of_without(points, d, doc_id);
            if doc_id == d {
                lemma_without_points_of(points, d);
            }
        },
        OpView::WriteDoc { doc_id, doc_hash, chunks } => {
            lemma_points_of_add(points, chunk_points(doc_hash, chunks), d);
            lemma_points_of_chunks(doc_hash, chunks, doc_id, d);
            if doc_id != d {
                assert(points_of(points, d) + Seq::<PointView>::empty() =~= points_of(points, d));
            }
        },
    }
}

/// The points of a document after a sequence of operations depend only on
/// its own points before and the operations that name it.
proof fn lemma_apply_ops_points_of(points: Seq<PointView>, ops: Seq<OpView>, d: Seq<char>)
    requires
        writes_own_chunks(ops),
    ensures
        points_of(apply_ops(points, ops), d) == apply_ops(points_of(points, d), ops_for(ops, d)),
    decreases ops.len(),
{
    if ops.len() > 0 {
        let pre = ops.drop_last();
        assert(writes_own_chunks(pre)) by {
            assert forall|k: int| 0 <= k < pre.len() implies match #[trigger] pre[k] {
                OpView::WriteDoc { doc_id, chunks, .. } => all_of_doc(chunks, doc_id),
                OpView::DeleteDoc { .. } => true,
            } by {
                assert(pre[k] == ops[k]);
            }
        }
        lemma_apply_ops_points_of(points, pre, d);
        let last = ops[ops.len() - 1];
        lemma_apply_op_points_of(apply_ops(points, pre), last, d);
        if last.doc_id() == d {
            let f = ops_for(pre, d);
            assert(f.push(last).drop_last() =~= f);
        }
    }
}

proof fn lemma_chunks_of_doc(doc_id: Seq<char>, path: Seq<char>, sections: Seq<SectionView>, size: nat, overlap: nat)
    ensures
        all_of_doc(crate::chunker::expand(doc_id, path, sections, size, overlap), doc_id),
    decreases sections.len(),
{
    if sections.len() > 0 {
        lemma_chunks_of_doc(doc_id, path, sections.drop_last(), size, overlap);
        let a = crate::chunker::expand(doc_id, path, sections.drop_last(), size, overlap);
        let b = crate::chunker::section_chunks(doc_id, path, sections.last(), size, overlap);
        assert forall|k: int| 0 <= k < (a + b).len() implies (#[trigger] (a + b)[k]).doc_id == doc_id by {
            if k >= a.len() {
                assert((a + b)[k] == b[k - a.len()]);
            } else {
                assert((a + b)[k] == a[k]);
            }
        }
    }
}

proof fn lemma_writes_own_add(a: Seq<OpView>, b: Seq<OpView>)
    requires
        writes_own_chunks(a),
        writes_own_chunks(b),
    ensures
        writes_own_chunks(a + b),
{
    assert forall|k: int| 0 <= k < (a + b).len() implies match #[trigger] (a + b)[k] {
        OpView::WriteDoc { doc_id, chunks, .. } => all_of_doc(chunks, doc_id),
        OpView::DeleteDoc { .. } => true,
    } by {
        if k >= a.len() {
            assert((a + b)[k] == b[k - a.len()]);
        } else {
            assert((a + b)[k] == a[k]);
        }
    }
}

proof fn lemma_plan_writes_own(
    docs: Seq<SourceView>,
    inv: Seq<InventoryView>,
    full_rebuild: bool,
    size: nat,
    overlap: nat,
)
    ensures
        writes_own_chunks(docs_ops(docs, inv, full_rebuild, size, overlap)),
        writes_own_chunks(obsolete_ops(inv, docs)),
    decreases docs.len() + inv.len(),
{
    if docs.len() > 0 {
        lemma_plan_writes_own(docs.drop_last(), inv, full_rebuild, size, overlap);
        let d = docs.last();
        let o = doc_ops(d, inv, full_rebuild, size, overlap);
        lemma_chunks_of_doc(doc_id_of(d.path), d.path, crate::chunker::sections_of(d.content), size, overlap);
        assert(writes_own_chunks(o));
        lemma_writes_own_add(docs_ops(docs.drop_last(), inv, full_rebuild, size, overlap), o);
    }
    lemma_obsolete_writes_own(inv, docs);
}

proof fn lemma_obsolete_writes_own(inv: Seq<InventoryView>, docs: Seq<SourceView>)
    ensures
        writes_own_chunks(obsolete_ops(inv, docs)),
    decreases inv.len(),
{
    if inv.len() > 0 {
        lemma_obsolete_writes_own(inv.drop_last(), docs);
        let tail = if in_scan(docs, inv.last().doc_id) {
            Seq::<OpView>::empty()
        } else {
            seq![OpView::DeleteDoc { doc_id: inv.last().doc_id }]
        };
        assert(writes_own_chunks(tail));
        lemma_writes_own_add(obsolete_ops(inv.drop_last(), docs), tail);
    }
}

proof fn lemma_plan_points_of(
    points: Seq<PointView>,
    docs: Seq<SourceView>,
    inv: Seq<InventoryView>,
    full_rebuild: bool,
    size: nat,
    overlap: nat,
    d: Seq<char>,
)
    ensures
        points_of(apply_ops(points, plan_ops(docs, inv, full_rebuild, size, overlap)), d) == apply_ops(
            points_of(points, d),
            ops_for(plan_ops(docs, inv, full_rebuild, size, overlap), d),
        ),
{
    if docs.len() == 0 {
        assert(ops_for(Seq::<OpView>::empty(), d) == Seq::<OpView>::empty());
    } else {
        lemma_plan_writes_own(docs, inv, full_rebuild, size, overlap);
        lemma_writes_own_add(docs_ops(docs, inv, full_rebuild, size, overlap), obsolete_ops(inv, docs));
        lemma_apply_ops_points_of(points, plan_ops(docs, inv, full_rebuild, size, overlap), d);
    }
}

/// Applying a run's plan without a full rebuild leaves the points of a
/// document whose whole-file hash matches the store's record as they were.
pub proof fn lemma_unchanged_document_keeps_points(
    points: Seq<PointView>,
    docs: Seq<SourceView>,
    inv: Seq<InventoryView>,
    size: nat,
    overlap: nat,
    i: int,
)
    requires
        distinct_docs(docs),
        0 <= i < docs.len(),
        inv_lookup(inv, doc_id_of(docs[i].path)) is Some,
        inv_lookup(inv, doc_id_of(docs[i].path))->Some_0.hash == sha256_hex(docs[i].content),
    ensures
        points_of(apply_ops(points, plan_ops(docs, inv, false, size, overlap)), doc_id_of(docs[i].path))
            == points_of(points, doc_id_of(docs[i].path)),
{
    lemma_unchanged_document_untouched(docs, inv, size, overlap, i);
    lemma_plan_points_of(points, docs, inv, false, size, overlap, doc_id_of(docs[i].path));
}

/// Applying a run's plan, when every chunk embeds, leaves a selected
/// document with exactly one point per chunk of its current content and
/// none of its earlier points.
pub proof fn lemma_changed_document_points(
    points: Seq<PointView>,
    docs: Seq<SourceView>,
    inv: Seq<InventoryView>,
    full_rebuild: bool,
    size: nat,
    overlap: nat,
    i: int,
)
    requires
        distinct_docs(docs),
        0 <= i < docs.len(),
        doc_selected(docs[i], inv, full_rebuild),
    ensures
        ({
            let d = doc_id_of(docs[i].path);
            points_of(apply_ops(points, plan_ops(docs, inv, full_rebuild, size, overlap)), d)
                == chunk_points(
                sha256_hex(docs[i].content),
                chunks_of(d, docs[i].path, docs[i].content, size, overlap),
            )
        }),
{
    let d = doc_id_of(docs[i].path);
    lemma_changed_document_replaced(docs, inv, full_rebuild, size, overlap, i);
    lemma_plan_points_of(points, docs, inv, full_rebuild, size, overlap, d);
    let ops = ops_for(plan_ops(docs, inv, full_rebuild, size, overlap), d);
    let pd = points_of(points, d);
    assert(ops.drop_last() =~= seq![ops[0]]);
    assert(ops.drop_last().drop_last() =~= Seq::<OpView>::empty());
    assert(apply_ops(pd, ops.drop_last().drop_last()) == pd);
    lemma_without_points_of(points, d);
    assert(apply_ops(pd, ops.drop_last()) == Seq::<PointView>::empty());
    let cp = chunk_points(
        sha256_hex(docs[i].content),
        chunks_of(d, docs[i].path, docs[i].content, size, overlap),
    );
    assert(Seq::<PointView>::empty() + cp =~= cp);
    assert(apply_ops(pd, ops) == cp);
}

/// The `(doc_id, whole-file hash)` pair of each point.
pub open spec fn point_rows(points: Seq<PointView>) -> Seq<(Seq<char>, Seq<char>)> {
    points.map_values(|p: PointView| (p.doc_id, p.doc_hash))
}

proof fn lemma_rows_count_points(points: Seq<PointView>, d: Seq<char>)
    ensures
        rows_of(point_rows(points), d) == points_of(points, d).len(),
    decreases points.len(),
{
    if points.len() > 0 {
        lemma_rows_count_points(points.drop_last(), d);
        assert(point_rows(points).drop_last() =~= point_rows(points.drop_last()));
    }
}

/// Applying a run's plan removes every point of a document that the store
/// holds but the scan no longer has. When the inventory was taken from the
/// store's points and that document is the only one removed, the run's
/// deleted-chunk count is exactly the number of points it had.
pub proof fn lemma_removed_document_points(
    points: Seq<PointView>,
    docs: Seq<SourceView>,
    inv: Seq<InventoryView>,
    full_rebuild: bool,
    size: nat,
    overlap: nat,
    m: int,
)
    requires
        docs.len() > 0,
        distinct_ids(inv),
        0 <= m < inv.len(),
        !in_scan(docs, inv[m].doc_id),
    ensures
        points_of(apply_ops(points, plan_ops(docs, inv, full_rebuild, size, overlap)), inv[m].doc_id)
            == Seq::<PointView>::empty(),
        summarizes(inv, point_rows(points)) && (forall|k: int|
            0 <= k < inv.len() && k != m ==> in_scan(docs, (#[trigger] inv[k]).doc_id))
            ==> planned_deletions(inv, docs) == points_of(points, inv[m].doc_id).len(),
{
    lemma_rows_count_points(points, inv[m].doc_id);
    let d = inv[m].doc_id;
    lemma_removed_document_deleted(docs, inv, full_rebuild, size, overlap, m);
    lemma_plan_points_of(points, docs, inv, full_rebuild, size, overlap, d);
    let ops = ops_for(plan_ops(docs, inv, full_rebuild, size, overlap), d);
    let pd = points_of(points, d);
    assert(ops.drop_last() =~= Seq::<OpView>::empty());
    assert(apply_ops(pd, ops.drop_last()) == pd);
    lemma_without_points_of(points, d);
    assert(apply_ops(pd, ops) == Seq::<PointView>::empty());
}

} // verus!
