//! The retriever: a similarity threshold over search results.

use vstd::prelude::*;
use crate::vector_store::{SearchHit, VectorStoreError, SCORE_SCALE};

verus! {

/// The table that holds the knowledge chunks.
pub const COLLECTION_NAME: &'static str = "knowledge_chunks";

/// How many hits a query asks for unless told otherwise.
pub const DEFAULT_TOP_K: u64 = 6;

/// The least similarity, in units of `1 / SCORE_SCALE`, that a passage needs.
pub const SCORE_THRESHOLD: u32 = 300_000;

pub struct ChunkMetadata {
    pub doc_id: String,
    pub path: String,
    pub title_path: String,
    pub section: String,
}

/// A passage that cleared the similarity threshold.
pub struct RetrievedChunk {
    pub metadata: ChunkMetadata,
    pub snippet: String,
    /// Similarity in units of `1 / SCORE_SCALE`.
    pub score: u32,
}

pub enum RetrieverError {
    /// The vector store failed.
    Store(VectorStoreError),
    /// The store returned hits, but none cleared the threshold.
    NoResultsAboveThreshold,
}

/// Metadata, snippet and score of a passage, as views.
pub struct PassageView {
    pub doc_id: Seq<char>,
    pub path: Seq<char>,
    pub title_path: Seq<char>,
    pub section: Seq<char>,
    pub snippet: Seq<char>,
    pub score: nat,
}

impl View for RetrievedChunk {
    type V = PassageView;

    open spec fn view(&self) -> PassageView {
        PassageView {
            doc_id: self.metadata.doc_id@,
            path: self.metadata.path@,
            title_path: self.metadata.title_path@,
            section: self.metadata.section@,
            snippet: self.snippet@,
            score: self.score as nat,
        }
    }
}

impl View for SearchHit {
    type V = PassageView;

    open spec fn view(&self) -> PassageView {
        PassageView {
            doc_id: self.doc_id@,
            path: self.path@,
            title_path: self.title_path@,
            section: self.section@,
            snippet: self.snippet@,
            score: self.score as nat,
        }
    }
}

pub open spec fn passages_view(v: Seq<RetrievedChunk>) -> Seq<PassageView> {
    v.map_values(|c: RetrievedChunk| c@)
}

pub open spec fn hits_view(v: Seq<SearchHit>) -> Seq<PassageView> {
    v.map_values(|h: SearchHit| h@)
}

/// The hits whose score is at least `threshold`, in the order given.
pub open spec fn above(hits: Seq<PassageView>, threshold: nat) -> Seq<PassageView>
    decreases hits.len(),
{
    if hits.len() == 0 {
        Seq::empty()
    } else if hits.last().score >= threshold {
        above(hits.drop_last(), threshold).push(hits.last())
    } else {
        above(hits.drop_last(), threshold)
    }
}

/// Scores never rise along the sequence.
pub open spec fn non_increasing(s: Seq<PassageView>) -> bool {
    forall|i: int, j: int| 0 <= i < j < s.len() ==> (#[trigger] s[i]).score >= (#[trigger] s[j]).score
}

pub open spec fn scores_at_most(s: Seq<PassageView>, m: nat) -> bool {
    forall|i: int| 0 <= i < s.len() ==> (#[trigger] s[i]).score <= m
}

pub open spec fn scores_at_least(s: Seq<PassageView>, m: nat) -> bool {
    forall|i: int| 0 <= i < s.len() ==> (#[trigger] s[i]).score >= m
}

/// Every element of `a` is an element of `h`.
pub open spec fn drawn_from(a: Seq<PassageView>, h: Seq<PassageView>) -> bool {
    forall|i: int| 0 <= i < a.len() ==> exists|j: int| 0 <= j < h.len() && #[trigger] a[i] == h[j]
}

/// The passages kept by the threshold are hits, at most as many, all at
/// least the threshold; they keep the hits' order, so descending hits give
/// descending passages, and bounds on the hits' scores carry over.
pub proof fn lemma_above_properties(hits: Seq<PassageView>, threshold: nat, max: nat)
    ensures
        above(hits, threshold).len() <= hits.len(),
        scores_at_least(above(hits, threshold), threshold),
        drawn_from(above(hits, threshold), hits),
        non_increasing(hits) ==> non_increasing(above(hits, threshold)),
        scores_at_most(hits, max) ==> scores_at_most(above(hits, threshold), max),
    decreases hits.len(),
{
    if hits.len() > 0 {
        let pre = hits.drop_last();
        let a = above(pre, threshold);
        lemma_above_properties(pre, threshold, max);
        let last = hits.last();
        assert forall|i: int| 0 <= i < a.len() implies exists|j: int|
            0 <= j < hits.len() - 1 && #[trigger] a[i] == hits[j] by {
            let j = choose|j: int| 0 <= j < pre.len() && #[trigger] a[i] == pre[j];
            assert(pre[j] == hits[j]);
        }
        if last.score >= threshold {
            let b = a.push(last);
            assert(drawn_from(b, hits)) by {
                assert forall|i: int| 0 <= i < b.len() implies exists|j: int|
                    0 <= j < hits.len() && #[trigger] b[i] == hits[j] by {
                    if i == a.len() {
                        assert(b[i] == hits[hits.len() - 1]);
                    } else {
                        assert(b[i] == a[i]);
                    }
                }
            }
            if non_increasing(hits) {
                assert(non_increasing(pre)) by {
                    assert forall|i: int, j: int| 0 <= i < j < pre.len() implies (#[trigger] pre[i]).score
                        >= (#[trigger] pre[j]).score by {
                        assert(pre[i] == hits[i] && pre[j] == hits[j]);
                    }
                }
                assert forall|i: int, j: int| 0 <= i < j < b.len() implies (#[trigger] b[i]).score
                    >= (#[trigger] b[j]).score by {
                    if j == a.len() {
                        assert(b[i] == a[i]);
                        let k = choose|k: int| 0 <= k < hits.len() - 1 && #[trigger] a[i] == hits[k];
                        assert(hits[k].score >= hits[hits.len() - 1].score);
                    } else {
                        assert(b[i] == a[i] && b[j] == a[j]);
                    }
                }
            }
            if scores_at_most(hits, max) {
                assert(scores_at_most(pre, max)) by {
                    assert forall|i: int| 0 <= i < pre.len() implies (#[trigger] pre[i]).score <= max by {
                        assert(pre[i] == hits[i]);
                    }
                }
                assert forall|i: int| 0 <= i < b.len() implies (#[trigger] b[i]).score <= max by {
                    if i < a.len() {
                        assert(b[i] == a[i]);
                    }
                }
            }
            assert forall|i: int| 0 <= i < b.len() implies (#[trigger] b[i]).score >= threshold by {
                if i < a.len() {
                    assert(b[i] == a[i]);
                }
            }
        } else {
            if non_increasing(hits) {
                assert(non_increasing(pre)) by {
                    assert forall|i: int, j: int| 0 <= i < j < pre.len() implies (#[trigger] pre[i]).score
                        >= (#[trigger] pre[j]).score by {
                        assert(pre[i] == hits[i] && pre[j] == hits[j]);
                    }
                }
            }
            if scores_at_most(hits, max) {
                assert(scores_at_most(pre, max)) by {
                    assert forall|i: int| 0 <= i < pre.len() implies (#[trigger] pre[i]).score <= max by {
                        assert(pre[i] == hits[i]);
                    }
                }
            }
        }
    }
}

/// Applies a similarity threshold to search results and shapes them into
/// passages.
pub struct VectorRetriever {
    pub score_threshold: u32,
    pub default_top_k: u64,
}

impl VectorRetriever {
    pub fn new(score_threshold: u32) -> (r: Self)
        ensures
            r.score_threshold == score_threshold,
            r.default_top_k == DEFAULT_TOP_K,
    {
        VectorRetriever { score_threshold, default_top_k: DEFAULT_TOP_K }
    }

    /// The number of hits to ask the store for.
    pub fn top_k(&self, top_k: Option<u64>) -> (r: u64)
        ensures
            r == match top_k {
                Some(k) => k,
                None => self.default_top_k,
            },
    {
        match top_k {
            Some(k) => k,
            None => self.default_top_k,
        }
    }

    /// Turns the store's answer into passages: no hits at all is an empty
    /// result, hits of which none clears the threshold are an error, and
    /// otherwise the hits that clear it are kept in the store's order.
    pub fn retrieve(&self, search: Result<Vec<SearchHit>, VectorStoreError>) -> (r: Result<
        Vec<RetrievedChunk>,
        RetrieverError,
    >)
        ensures
            match search {
                Err(e) => r == Err::<Vec<RetrievedChunk>, RetrieverError>(RetrieverError::Store(e)),
                Ok(hits) => {
                    let kept = above(hits_view(hits@), self.score_threshold as nat);
                    if hits@.len() == 0 {
                        r is Ok && r->Ok_0@.len() == 0
                    } else if kept.len() == 0 {
                        r is Err && r->Err_0 is NoResultsAboveThreshold
                    } else {
                        r is Ok && passages_view(r->Ok_0@) == kept
                    }
                },
            },
            r is Ok ==> match search {
                Ok(hits) => {
                    let out = passages_view(r->Ok_0@);
                    &&& out.len() <= hits@.len()
                    &&& scores_at_least(out, self.score_threshold as nat)
                    &&& non_increasing(hits_view(hits@)) ==> non_increasing(out)
                    &&& scores_at_most(hits_view(hits@), SCORE_SCALE as nat) ==> scores_at_most(
                        out,
                        SCORE_SCALE as nat,
                    )
                },
                Err(_) => false,
            },
    {
        let hits = match search {
            Err(e) => {
                return Err(RetrieverError::Store(e));
            },
            Ok(hits) => hits,
        };
        if hits.len() == 0 {
            let r: Vec<RetrievedChunk> = Vec::new();
            proof {
                assert(passages_view(r@) =~= Seq::<PassageView>::empty());
            }
            return Ok(r);
        }
        let ghost hv = hits_view(hits@);
        let mut chunks: Vec<RetrievedChunk> = Vec::new();
        let mut i: usize = 0;
        proof {
            assert(hv.take(0) =~= Seq::<PassageView>::empty());
            assert(passages_view(chunks@) =~= Seq::<PassageView>::empty());
        }
        while i < hits.len()
            invariant
                i <= hits.len(),
                hv == hits_view(hits@),
                passages_view(chunks@) == above(hv.take(i as int), self.score_threshold as nat),
            decreases hits.len() - i,
        {
            let h = &hits[i];
            proof {
                assert(hv.take(i + 1).drop_last() =~= hv.take(i as int));
                assert(hv.take(i + 1).last() == h@);
            }
            if h.score >= self.score_threshold {
                let c = RetrievedChunk {
                    metadata: ChunkMetadata {
                        doc_id: h.doc_id.clone(),
                        path: h.path.clone(),
                        title_path: h.title_path.clone(),
                        section: h.section.clone(),
                    },
                    snippet: h.snippet.clone(),
                    score: h.score,
                };
                let ghost before = chunks@;
                chunks.push(c);
                proof {
                    assert(passages_view(chunks@) =~= passages_view(before).push(c@));
                }
            }
            i = i + 1;
        }
        proof {
            assert(hv.take(hits.len() as int) =~= hv);
            lemma_above_properties(hv, self.score_threshold as nat, SCORE_SCALE as nat);
        }
        if chunks.len() == 0 {
            Err(RetrieverError::NoResultsAboveThreshold)
        } else {
            Ok(chunks)
        }
    }
}

} // verus!
