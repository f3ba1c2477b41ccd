//! The vector store's data, similarity scoring, and the keys and checks
//! its backends use.

use vstd::prelude::*;
use crate::text::{decimal, decimal_of};

verus! {

/// Similarity scores are fixed-point fractions of this scale: a score of
/// `SCORE_SCALE` is 1.0.
pub const SCORE_SCALE: u32 = 1_000_000;

/// The normalized similarity for a cosine distance, both in units of
/// `1 / SCORE_SCALE`: `1 - d / 2`, clamped to `[0, 1]`.
pub open spec fn score_of(distance: int) -> int {
    if distance <= 0 {
        SCORE_SCALE as int
    } else if distance >= 2 * SCORE_SCALE {
        0
    } else {
        SCORE_SCALE - distance / 2
    }
}

/// Converts a cosine distance in `[0, 2]` (scaled by `SCORE_SCALE`) to a
/// similarity score in `[0, 1]` (scaled the same way).
pub fn distance_to_score(distance: i64) -> (r: u32)
    ensures
        r as int == score_of(distance as int),
        r <= SCORE_SCALE,
{
    if distance <= 0 {
        SCORE_SCALE
    } else if distance >= 2_000_000 {
        0
    } else {
        SCORE_SCALE - (distance / 2) as u32
    }
}

/// Similarity never rises as distance grows, stays within `[0, 1]`, is 1
/// at distance 0 and 0 from distance 2 on.
pub proof fn lemma_score_monotone_clamped(d1: int, d2: int)
    requires
        d1 <= d2,
    ensures
        score_of(d2) <= score_of(d1),
        0 <= score_of(d1) <= SCORE_SCALE,
        score_of(0) == SCORE_SCALE,
        d2 >= 2 * SCORE_SCALE ==> score_of(d2) == 0,
{
}

/// A search result: a stored point's metadata and text with its similarity.
pub struct SearchHit {
    pub doc_id: String,
    pub path: String,
    pub title_path: String,
    pub section: String,
    pub snippet: String,
    /// Similarity in units of `1 / SCORE_SCALE`.
    pub score: u32,
}

/// How a vector store call failed.
pub enum VectorStoreError {
    /// The store could not be reached or refused the operation.
    Unavailable(String),
    /// A stored row did not have the expected shape.
    InvalidPayload(String),
}

/// The unique key of a stored point: `doc_id|chunk_id|content_hash`.
pub open spec fn point_key(doc_id: Seq<char>, chunk_id: Seq<char>, content_hash: Seq<char>) -> Seq<char> {
    doc_id + "|"@ + chunk_id + "|"@ + content_hash
}

pub fn point_id(doc_id: &str, chunk_id: &str, content_hash: &str) -> (r: String)
    ensures
        r@ == point_key(doc_id@, chunk_id@, content_hash@),
{
    let mut r = String::from_str(doc_id);
    r.append("|");
    r.append(chunk_id);
    r.append("|");
    r.append(content_hash);
    r
}

/// `s` with every single quote doubled, as an SQL string literal needs.
pub open spec fn sql_escaped(s: Seq<char>) -> Seq<char>
    decreases s.len(),
{
    if s.len() == 0 {
        Seq::empty()
    } else if s.last() == '\'' {
        sql_escaped(s.drop_last()) + seq!['\'', '\'']
    } else {
        sql_escaped(s.drop_last()).push(s.last())
    }
}

pub fn escape_sql_literal(value: &str) -> (r: String)
    ensures
        r@ == sql_escaped(value@),
{
    let chars = crate::text::chars_of(value);
    let mut out: Vec<char> = Vec::new();
    let mut i: usize = 0;
    while i < chars.len()
        invariant
            i <= chars.len(),
            chars@ == value@,
            out@ == sql_escaped(chars@.take(i as int)),
        decreases chars.len() - i,
    {
        let c = chars[i];
        proof {
            assert(chars@.take(i + 1).drop_last() =~= chars@.take(i as int));
            assert(chars@.take(i + 1).last() == c);
        }
        if c == '\'' {
            out.push('\'');
            out.push('\'');
            proof {
                assert(out@ =~= sql_escaped(chars@.take(i + 1)));
            }
        } else {
            out.push(c);
        }
        i = i + 1;
    }
    proof {
        assert(chars@.take(chars.len() as int) =~= chars@);
    }
    crate::text::collect_chars(out.as_slice())
}

/// The filter that selects every point of a document.
pub fn delete_predicate(doc_id: &str) -> (r: String)
    ensures
        r@ == "doc_id = '"@ + sql_escaped(doc_id@) + "'"@,
{
    let mut r = String::from_str("doc_id = '");
    let e = escape_sql_literal(doc_id);
    r.append(e.as_str());
    r.append("'");
    r
}

pub open spec fn quoted(id: Seq<char>) -> Seq<char> {
    "'"@ + sql_escaped(id) + "'"@
}

/// The quoted ids, separated by `", "`.
pub open spec fn quoted_list(ids: Seq<Seq<char>>) -> Seq<char>
    decreases ids.len(),
{
    if ids.len() == 0 {
        Seq::empty()
    } else if ids.len() == 1 {
        quoted(ids[0])
    } else {
        quoted_list(ids.drop_last()) + ", "@ + quoted(ids.last())
    }
}

/// The filter that selects the points with the given keys, so that a batch
/// write replaces points that share a key.
pub fn points_predicate(point_ids: &Vec<String>) -> (r: String)
    ensures
        r@ == "point_id IN ("@ + quoted_list(crate::text::strings_view(point_ids@)) + ")"@,
{
    let ghost iv = crate::text::strings_view(point_ids@);
    let mut list = String::new();
    let mut i: usize = 0;
    while i < point_ids.len()
        invariant
            i <= point_ids.len(),
            iv == crate::text::strings_view(point_ids@),
            list@ == quoted_list(iv.take(i as int)),
        decreases point_ids.len() - i,
    {
        proof {
            assert(iv.take(i + 1).drop_last() =~= iv.take(i as int));
            assert(iv.take(i + 1).last() == point_ids@[i as int]@);
        }
        if i > 0 {
            list.append(", ");
        }
        list.append("'");
        let e = escape_sql_literal(point_ids[i].as_str());
        list.append(e.as_str());
        list.append("'");
        proof {
            if i == 0 {
                assert(iv.take(1)[0] == point_ids@[0]@);
            }
            assert(list@ =~= quoted_list(iv.take(i + 1)));
        }
        i = i + 1;
    }
    proof {
        assert(iv.take(point_ids.len() as int) =~= iv);
    }
    let mut r = String::from_str("point_id IN (");
    r.append(list.as_str());
    r.append(")");
    r
}

/// A batch can be written only when every vector has the table's dimension.
pub fn check_vector_sizes(lengths: &Vec<usize>, expected: usize) -> (r: Result<(), VectorStoreError>)
    ensures
        r is Ok <==> forall|i: int| 0 <= i < lengths@.len() ==> #[trigger] lengths@[i] == expected,
        r is Err ==> r->Err_0 is InvalidPayload,
{
    let mut i: usize = 0;
    while i < lengths.len()
        invariant
            i <= lengths.len(),
            forall|k: int| 0 <= k < i ==> #[trigger] lengths@[k] == expected,
        decreases lengths.len() - i,
    {
        if lengths[i] != expected {
            let mut m = String::from_str("vector size mismatch: got ");
            let got = decimal(lengths[i]);
            m.append(got.as_str());
            m.append(", expected ");
            let want = decimal(expected);
            m.append(want.as_str());
            return Err(VectorStoreError::InvalidPayload(m));
        }
        i = i + 1;
    }
    Ok(())
}

/// A vector index is built once the table holds rows and has none yet.
pub fn needs_vector_index(row_count: usize, has_vector_index: bool) -> (r: bool)
    ensures
        r == (row_count > 0 && !has_vector_index),
{
    row_count > 0 && !has_vector_index
}

} // verus!
