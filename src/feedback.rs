//! The append-only log of user feedback on answers.

use vstd::prelude::*;
use crate::ids::{new_uuid, now_rfc3339};
use crate::text::{trim, trimmed_of};

verus! {

#[derive(Debug, Clone, Copy, PartialEq, Eq, Structural)]
pub enum FeedbackRating {
    Useful,
    Useless,
}

pub struct FeedbackRequest {
    pub question: String,
    pub answer: String,
    pub rating: FeedbackRating,
    pub comment: Option<String>,
    pub error_code: Option<String>,
    pub trace_id: String,
}

pub struct FeedbackRecord {
    pub id: String,
    pub question: String,
    pub answer: String,
    pub rating: FeedbackRating,
    pub comment: Option<String>,
    pub error_code: Option<String>,
    pub trace_id: String,
    pub created_at: String,
}

pub struct FeedbackResponse {
    pub ok: bool,
    pub id: String,
}

pub enum FeedbackError {
    StorageError(String),
    InvalidInput(String),
}

/// Which required field of a feedback request is blank, if any, checked in
/// the order question, answer, trace id.
pub open spec fn feedback_problem(question: Seq<char>, answer: Seq<char>, trace_id: Seq<char>) -> Option<
    Seq<char>,
> {
    if trimmed_of(question).len() == 0 {
        Some("Question cannot be empty"@)
    } else if trimmed_of(answer).len() == 0 {
        Some("Answer cannot be empty"@)
    } else if trimmed_of(trace_id).len() == 0 {
        Some("Trace ID cannot be empty"@)
    } else {
        None
    }
}

/// Rejects a request whose question, answer or trace id is blank.
pub fn validate_feedback(request: &FeedbackRequest) -> (r: Result<(), FeedbackError>)
    ensures
        match feedback_problem(request.question@, request.answer@, request.trace_id@) {
            None => r is Ok,
            Some(m) => r is Err && (r->Err_0 matches FeedbackError::InvalidInput(s) && s@ == m),
        },
{
    if trim(request.question.as_str()).as_str().is_empty() {
        return Err(FeedbackError::InvalidInput(String::from_str("Question cannot be empty")));
    }
    if trim(request.answer.as_str()).as_str().is_empty() {
        return Err(FeedbackError::InvalidInput(String::from_str("Answer cannot be empty")));
    }
    if trim(request.trace_id.as_str()).as_str().is_empty() {
        return Err(FeedbackError::InvalidInput(String::from_str("Trace ID cannot be empty")));
    }
    Ok(())
}

/// An append-only log of feedback records.
pub struct FeedbackStore {
    pub records: Vec<FeedbackRecord>,
}

impl FeedbackStore {
    pub fn new() -> (r: Self)
        ensures
            r.records@.len() == 0,
    {
        FeedbackStore { records: Vec::new() }
    }

    /// Appends a record of the request under the given id and time.
    pub fn save_with(&mut self, request: FeedbackRequest, id: String, created_at: String) -> (r:
        &FeedbackRecord)
        ensures
            final(self).records@.len() == old(self).records@.len() + 1,
            final(self).records@.take(old(self).records@.len() as int) == old(self).records@,
            *r == final(self).records@.last(),
            r.id == id && r.created_at == created_at,
            r.question == request.question && r.answer == request.answer,
            r.rating == request.rating && r.comment == request.comment,
            r.error_code == request.error_code && r.trace_id == request.trace_id,
    {
        let record = FeedbackRecord {
            id,
            question: request.question,
            answer: request.answer,
            rating: request.rating,
            comment: request.comment,
            error_code: request.error_code,
            trace_id: request.trace_id,
            created_at,
        };
        self.records.push(record);
        proof {
            assert(self.records@.take(old(self).records@.len() as int) =~= old(self).records@);
        }
        let n = self.records.len();
        &self.records[n - 1]
    }

    /// Appends a record of the request under a fresh id and the current time.
    pub fn save(&mut self, request: FeedbackRequest) -> (r: &FeedbackRecord)
        ensures
            final(self).records@.len() == old(self).records@.len() + 1,
            final(self).records@.take(old(self).records@.len() as int) == old(self).records@,
            *r == final(self).records@.last(),
            r.question == request.question && r.answer == request.answer,
            r.rating == request.rating && r.comment == request.comment,
            r.error_code == request.error_code && r.trace_id == request.trace_id,
    {
        let id = new_uuid();
        let created_at = now_rfc3339();
        self.save_with(request, id, created_at)
    }

    pub fn get_all(&self) -> (r: &Vec<FeedbackRecord>)
        ensures
            *r == self.records,
    {
        &self.records
    }

    /// The first record with the given trace id.
    pub fn get_by_trace_id(&self, trace_id: &str) -> (r: Option<&FeedbackRecord>)
        ensures
            match r {
                Some(rec) => exists|i: int|
                    0 <= i < self.records@.len() && self.records@[i] == *rec && rec.trace_id@
                        == trace_id@ && forall|k: int|
                        0 <= k < i ==> (#[trigger] self.records@[k]).trace_id@ != trace_id@,
                None => forall|k: int|
                    0 <= k < self.records@.len() ==> (#[trigger] self.records@[k]).trace_id@
                        != trace_id@,
            },
    {
        let target = String::from_str(trace_id);
        let mut i: usize = 0;
        while i < self.records.len()
            invariant
                i <= self.records.len(),
                target@ == trace_id@,
                forall|k: int| 0 <= k < i ==> (#[trigger] self.records@[k]).trace_id@ != trace_id@,
            decreases self.records.len() - i,
        {
            if self.records[i].trace_id == target {
                return Some(&self.records[i]);
            }
            i = i + 1;
        }
        None
    }
}

impl Default for FeedbackStore {
    fn default() -> (r: Self)
        ensures
            r.records@.len() == 0,
    {
        FeedbackStore::new()
    }
}

/// The answer to an accepted feedback request.
pub fn feedback_saved(id: String) -> (r: FeedbackResponse)
    ensures
        r.ok && r.id == id,
{
    FeedbackResponse { ok: true, id }
}

} // verus!
