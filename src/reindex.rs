//! Run counts and the single-flight manager of reindex jobs.

use vstd::prelude::*;
use crate::indexer::{ops_view, replaces, replaces_at, IndexPlan};
use vstd::math::min;
use crate::ids::{new_uuid, now_rfc3339};

verus! {

/// The counts of one indexing pass.
pub struct IndexResult {
    pub total_files: usize,
    pub indexed_files: usize,
    pub skipped_files: usize,
    pub failed_files: usize,
    pub total_chunks: usize,
    pub successful_chunks: usize,
    pub failed_chunks: usize,
    pub deleted_chunks: usize,
    pub duration_ms: u128,
}

impl IndexResult {
    /// The counts of a pass that found no documents.
    pub fn empty(duration_ms: u128) -> (r: Self)
        ensures
            r.total_files == 0 && r.indexed_files == 0 && r.skipped_files == 0,
            r.failed_files == 0 && r.total_chunks == 0 && r.successful_chunks == 0,
            r.failed_chunks == 0 && r.deleted_chunks == 0,
            r.duration_ms == duration_ms,
    {
        IndexResult {
            total_files: 0,
            indexed_files: 0,
            skipped_files: 0,
            failed_files: 0,
            total_chunks: 0,
            successful_chunks: 0,
            failed_chunks: 0,
            deleted_chunks: 0,
            duration_ms,
        }
    }

    /// The counts a plan fixes before any chunk is embedded.
    pub fn for_plan(plan: &IndexPlan) -> (r: Self)
        ensures
            r.total_files == plan.total_files,
            r.indexed_files == plan.indexed_files,
            r.skipped_files == plan.skipped_files,
            r.deleted_chunks == plan.deleted_chunks,
            r.failed_files == 0 && r.total_chunks == 0 && r.successful_chunks == 0,
            r.failed_chunks == 0 && r.duration_ms == 0,
    {
        IndexResult {
            total_files: plan.total_files,
            indexed_files: plan.indexed_files,
            skipped_files: plan.skipped_files,
            failed_files: 0,
            total_chunks: 0,
            successful_chunks: 0,
            failed_chunks: 0,
            deleted_chunks: plan.deleted_chunks,
            duration_ms: 0,
        }
    }

    /// Counts a document's chunks: those embedded and written, and those
    /// that failed. Counts saturate at `usize::MAX`.
    pub fn record_chunks(&mut self, successful: usize, failed: usize)
        ensures
            final(self).successful_chunks == min(
                old(self).successful_chunks + successful,
                usize::MAX as int,
            ),
            final(self).failed_chunks == min(old(self).failed_chunks + failed, usize::MAX as int),
            final(self).total_chunks == min(
                min(old(self).total_chunks + successful, usize::MAX as int) + failed,
                usize::MAX as int,
            ),
            final(self).total_files == old(self).total_files,
            final(self).indexed_files == old(self).indexed_files,
            final(self).skipped_files == old(self).skipped_files,
            final(self).failed_files == old(self).failed_files,
            final(self).deleted_chunks == old(self).deleted_chunks,
            final(self).duration_ms == old(self).duration_ms,
    {
        self.successful_chunks = self.successful_chunks.saturating_add(successful);
        self.failed_chunks = self.failed_chunks.saturating_add(failed);
        self.total_chunks = self.total_chunks.saturating_add(successful).saturating_add(failed);
    }

    /// Counts a document that could not be processed at all.
    pub fn record_failed_file(&mut self)
        ensures
            final(self).failed_files == min(old(self).failed_files + 1, usize::MAX as int),
            final(self).total_files == old(self).total_files,
            final(self).indexed_files == old(self).indexed_files,
            final(self).skipped_files == old(self).skipped_files,
            final(self).total_chunks == old(self).total_chunks,
            final(self).successful_chunks == old(self).successful_chunks,
            final(self).failed_chunks == old(self).failed_chunks,
            final(self).deleted_chunks == old(self).deleted_chunks,
            final(self).duration_ms == old(self).duration_ms,
    {
        self.failed_files = self.failed_files.saturating_add(1);
    }
}

/// The counts of a run as it carries out its plan. A document whose old
/// points could not be deleted is a failed file and its write is skipped; a
/// document whose write failed is a failed file too. Failed files never
/// outnumber the documents selected for indexing.
pub struct IndexTally {
    pub result: IndexResult,
    pub skipped_doc: Option<String>,
}

impl IndexTally {
    pub open spec fn wf(&self) -> bool {
        self.result.failed_files <= self.result.indexed_files
    }

    pub fn start(plan: &IndexPlan) -> (r: Self)
        ensures
            r.wf(),
            r.skipped_doc is None,
            r.result.total_files == plan.total_files,
            r.result.indexed_files == plan.indexed_files,
            r.result.skipped_files == plan.skipped_files,
            r.result.deleted_chunks == plan.deleted_chunks,
            r.result.failed_files == 0 && r.result.total_chunks == 0,
            r.result.successful_chunks == 0 && r.result.failed_chunks == 0,
            r.result.duration_ms == 0,
    {
        IndexTally { result: IndexResult::for_plan(plan), skipped_doc: None }
    }

    fn count_failed_file(&mut self)
        requires
            old(self).wf(),
        ensures
            final(self).wf(),
            final(self).skipped_doc == old(self).skipped_doc,
            final(self).result.failed_files == if old(self).result.failed_files < old(
                self,
            ).result.indexed_files {
                old(self).result.failed_files + 1
            } else {
                old(self).result.failed_files as int
            },
            final(self).result.total_files == old(self).result.total_files,
            final(self).result.indexed_files == old(self).result.indexed_files,
            final(self).result.skipped_files == old(self).result.skipped_files,
            final(self).result.total_chunks == old(self).result.total_chunks,
            final(self).result.successful_chunks == old(self).result.successful_chunks,
            final(self).result.failed_chunks == old(self).result.failed_chunks,
            final(self).result.deleted_chunks == old(self).result.deleted_chunks,
            final(self).result.duration_ms == old(self).result.duration_ms,
    {
        if self.result.failed_files < self.result.indexed_files {
            self.result.failed_files = self.result.failed_files + 1;
        }
    }

    /// Records the outcome of deleting the points named by operation `i`:
    /// a failed deletion ahead of a write counts the document as failed and
    /// marks its write to be skipped; anything else changes nothing.
    pub fn record_delete(&mut self, plan: &IndexPlan, i: usize, deleted: bool)
        requires
            old(self).wf(),
            i < plan.ops.len(),
        ensures
            final(self).wf(),
            (deleted || !replaces_at(ops_view(plan.ops@), i as int)) ==> *final(self) == *old(self),
            (!deleted && replaces_at(ops_view(plan.ops@), i as int)) ==> {
                &&& final(self).skipped_doc is Some
                &&& final(self).skipped_doc->Some_0@ == ops_view(plan.ops@)[i as int].doc_id()
                &&& final(self).result.failed_files == if old(self).result.failed_files < old(
                    self,
                ).result.indexed_files {
                    old(self).result.failed_files + 1
                } else {
                    old(self).result.failed_files as int
                }
            },
    {
        if deleted || !replaces(plan, i) {
            return;
        }
        self.count_failed_file();
        let id = plan.ops[i].doc_id().clone();
        self.skipped_doc = Some(id);
    }

    /// Whether the write of a document is to be carried out.
    pub fn should_write(&self, doc_id: &String) -> (r: bool)
        ensures
            r == !(self.skipped_doc is Some && self.skipped_doc->Some_0@ == doc_id@),
    {
        match &self.skipped_doc {
            Some(d) => !(*d == *doc_id),
            None => true,
        }
    }

    /// Records a document's write: when it was stored, its embedded and
    /// failed chunks; when the store refused it, a failed file.
    pub fn record_write(&mut self, written: bool, successful: usize, failed: usize)
        requires
            old(self).wf(),
        ensures
            final(self).wf(),
            final(self).skipped_doc == old(self).skipped_doc,
            written ==> final(self).result.failed_files == old(self).result.failed_files
                && final(self).result.successful_chunks == min(
                old(self).result.successful_chunks + successful,
                usize::MAX as int,
            ) && final(self).result.failed_chunks == min(
                old(self).result.failed_chunks + failed,
                usize::MAX as int,
            ),
            !written ==> final(self).result.failed_files == if old(self).result.failed_files < old(
                self,
            ).result.indexed_files {
                old(self).result.failed_files + 1
            } else {
                old(self).result.failed_files as int
            } && final(self).result.successful_chunks == old(self).result.successful_chunks,
    {
        if written {
            self.result.record_chunks(successful, failed);
        } else {
            self.count_failed_file();
        }
    }

    /// The run's counts, with its duration.
    pub fn finish(self, duration_ms: u128) -> (r: IndexResult)
        requires
            self.wf(),
        ensures
            r.failed_files <= r.indexed_files,
            r.duration_ms == duration_ms,
            r.total_files == self.result.total_files,
            r.indexed_files == self.result.indexed_files,
            r.skipped_files == self.result.skipped_files,
            r.failed_files == self.result.failed_files,
            r.total_chunks == self.result.total_chunks,
            r.successful_chunks == self.result.successful_chunks,
            r.failed_chunks == self.result.failed_chunks,
            r.deleted_chunks == self.result.deleted_chunks,
    {
        let mut r = self.result;
        r.duration_ms = duration_ms;
        r
    }
}

/// The state of a reindex job.
#[derive(Debug, Clone, Copy, PartialEq, Eq, Structural)]
pub enum JobStatus {
    Running,
    Completed,
    Failed,
}

impl JobStatus {
    /// The status's lowercase wire name.
    pub fn as_str(&self) -> (r: &'static str)
        ensures
            r@ == match self {
                JobStatus::Running => "running"@,
                JobStatus::Completed => "completed"@,
                JobStatus::Failed => "failed"@,
            },
    {
        match self {
            JobStatus::Running => "running",
            JobStatus::Completed => "completed",
            JobStatus::Failed => "failed",
        }
    }
}

/// The record of the current reindex job.
pub struct JobInfo {
    pub job_id: String,
    pub status: JobStatus,
    pub started_at: String,
    pub ended_at: Option<String>,
    pub result: Option<IndexResult>,
    pub error: Option<String>,
}

pub enum ReindexError {
    /// A job is running already.
    JobInProgress,
    /// The indexing pass failed.
    IndexerError(String),
    /// Anything else.
    InternalError(String),
}

impl ReindexError {
    /// The HTTP status that reports the error: a conflict for a job in
    /// progress, an internal error otherwise.
    pub fn status_code(&self) -> (r: u16)
        ensures
            r == if self is JobInProgress { 409u16 } else { 500u16 },
    {
        match self {
            ReindexError::JobInProgress => 409,
            ReindexError::IndexerError(_) | ReindexError::InternalError(_) => 500,
        }
    }
}

/// A request to reindex; `full` asks for a full rebuild.
pub struct ReindexRequest {
    pub full: bool,
}

/// A reindex request without `full` asks for a full rebuild.
pub fn default_full_rebuild() -> (r: bool)
    ensures
        r,
{
    true
}

pub struct ReindexResponse {
    pub job_id: String,
    pub message: String,
}

pub struct ReindexStatusResponse {
    pub job: Option<JobInfo>,
}

/// The answer to an accepted reindex request.
pub fn reindex_started(job_id: String) -> (r: ReindexResponse)
    ensures
        r.job_id == job_id,
        r.message@ == "Reindex job started successfully"@,
{
    ReindexResponse { job_id, message: String::from_str("Reindex job started successfully") }
}

/// Single-flight guard over reindex jobs: at most one job runs at a time.
pub struct JobManager {
    pub current_job: Option<JobInfo>,
    pub last_index_time: Option<String>,
}

pub open spec fn is_running(job: Option<JobInfo>) -> bool {
    job is Some && job->Some_0.status == JobStatus::Running
}

/// The job exists and has the given id.
pub open spec fn repeats_id(job: Option<JobInfo>, id: Seq<char>) -> bool {
    job is Some && job->Some_0.job_id@ == id
}

impl JobManager {
    pub fn new() -> (r: Self)
        ensures
            r.current_job is None,
            r.last_index_time is None,
    {
        JobManager { current_job: None, last_index_time: None }
    }

    /// Starts a job under the given id: fails with `JobInProgress` when a
    /// job is running, with an internal error when the id is the current
    /// (finished) job's own, and otherwise makes the current job a fresh
    /// running record with that id. On failure nothing changes.
    pub fn start_job_with(&mut self, job_id: String, started_at: String) -> (r: Result<
        String,
        ReindexError,
    >)
        ensures
            is_running(old(self).current_job) ==> r is Err && r->Err_0 is JobInProgress,
            !is_running(old(self).current_job) && repeats_id(old(self).current_job, job_id@) ==> r is Err
                && r->Err_0 is InternalError,
            !is_running(old(self).current_job) && !repeats_id(old(self).current_job, job_id@) ==> r is Ok,
            r is Err ==> *final(self) == *old(self),
            r is Ok ==> {
                &&& r->Ok_0@ == job_id@
                &&& final(self).current_job is Some
                &&& final(self).current_job->Some_0.job_id@ == job_id@
                &&& final(self).current_job->Some_0.status == JobStatus::Running
                &&& final(self).current_job->Some_0.started_at@ == started_at@
                &&& final(self).current_job->Some_0.ended_at is None
                &&& final(self).current_job->Some_0.result is None
                &&& final(self).current_job->Some_0.error is None
                &&& final(self).last_index_time == old(self).last_index_time
            },
    {
        let (running, repeated) = match &self.current_job {
            Some(job) => (job.status == JobStatus::Running, job.job_id == job_id),
            None => (false, false),
        };
        if running {
            return Err(ReindexError::JobInProgress);
        }
        if repeated {
            return Err(ReindexError::InternalError(String::from_str("job id repeated")));
        }
        let id = job_id.clone();
        self.current_job = Some(
            JobInfo {
                job_id,
                status: JobStatus::Running,
                started_at,
                ended_at: None,
                result: None,
                error: None,
            },
        );
        Ok(id)
    }

    /// Starts a job under a fresh random id unless one is running. A manager
    /// with no job always starts one; after a finished job, the start fails
    /// only in the unlikely event that the random id repeats that job's id.
    pub fn start_job(&mut self) -> (r: Result<String, ReindexError>)
        ensures
            is_running(old(self).current_job) ==> r is Err && r->Err_0 is JobInProgress,
            old(self).current_job is None ==> r is Ok,
            r is Err && r->Err_0 is JobInProgress ==> is_running(old(self).current_job),
            r is Err ==> *final(self) == *old(self),
            r is Ok ==> {
                &&& !is_running(old(self).current_job)
                &&& r->Ok_0@.len() == 36
                &&& final(self).current_job is Some
                &&& final(self).current_job->Some_0.job_id@ == r->Ok_0@
                &&& final(self).current_job->Some_0.status == JobStatus::Running
                &&& final(self).current_job->Some_0.ended_at is None
                &&& final(self).current_job->Some_0.result is None
                &&& final(self).current_job->Some_0.error is None
                &&& old(self).current_job is Some ==> r->Ok_0@ != old(self).current_job->Some_0.job_id@
                &&& final(self).last_index_time == old(self).last_index_time
            },
    {
        let job_id = new_uuid();
        let started_at = now_rfc3339();
        self.start_job_with(job_id, started_at)
    }

    /// Marks the current job completed with its counts, when it is the job
    /// named; otherwise nothing changes. Completion also records the time of
    /// the last successful index.
    pub fn complete_job(&mut self, job_id: &str, result: IndexResult)
        ensures
            (old(self).current_job is Some && old(self).current_job->Some_0.job_id@ == job_id@) ==> {
                &&& final(self).current_job is Some
                &&& final(self).current_job->Some_0.job_id == old(self).current_job->Some_0.job_id
                &&& final(self).current_job->Some_0.started_at == old(self).current_job->Some_0.started_at
                &&& final(self).current_job->Some_0.status == JobStatus::Completed
                &&& final(self).current_job->Some_0.result == Some(result)
                &&& final(self).current_job->Some_0.error is None
                &&& final(self).current_job->Some_0.ended_at is Some
                &&& final(self).last_index_time == final(self).current_job->Some_0.ended_at
            },
            !(old(self).current_job is Some && old(self).current_job->Some_0.job_id@ == job_id@)
                ==> *final(self) == *old(self),
    {
        let target = String::from_str(job_id);
        let matches_job = match &self.current_job {
            Some(job) => job.job_id == target,
            None => false,
        };
        if !matches_job {
            return;
        }
        let ended_at = now_rfc3339();
        let last = ended_at.clone();
        let old_job = self.current_job.take().unwrap();
        self.current_job = Some(
            JobInfo {
                job_id: old_job.job_id,
                status: JobStatus::Completed,
                started_at: old_job.started_at,
                ended_at: Some(ended_at),
                result: Some(result),
                error: None,
            },
        );
        self.last_index_time = Some(last);
    }

    /// Marks the current job failed with its error, when it is the job
    /// named; otherwise nothing changes.
    pub fn fail_job(&mut self, job_id: &str, error: String)
        ensures
            (old(self).current_job is Some && old(self).current_job->Some_0.job_id@ == job_id@) ==> {
                &&& final(self).current_job is Some
                &&& final(self).current_job->Some_0.job_id == old(self).current_job->Some_0.job_id
                &&& final(self).current_job->Some_0.started_at == old(self).current_job->Some_0.started_at
                &&& final(self).current_job->Some_0.status == JobStatus::Failed
                &&& final(self).current_job->Some_0.result == old(self).current_job->Some_0.result
                &&& final(self).current_job->Some_0.error == Some(error)
                &&& final(self).current_job->Some_0.ended_at is Some
                &&& final(self).last_index_time == old(self).last_index_time
            },
            !(old(self).current_job is Some && old(self).current_job->Some_0.job_id@ == job_id@)
                ==> *final(self) == *old(self),
    {
        let target = String::from_str(job_id);
        let matches_job = match &self.current_job {
            Some(job) => job.job_id == target,
            None => false,
        };
        if !matches_job {
            return;
        }
        let ended_at = now_rfc3339();
        let old_job = self.current_job.take().unwrap();
        self.current_job = Some(
            JobInfo {
                job_id: old_job.job_id,
                status: JobStatus::Failed,
                started_at: old_job.started_at,
                ended_at: Some(ended_at),
                result: old_job.result,
                error: Some(error),
            },
        );
    }

    /// Forgets the current job, so that a new one can start.
    pub fn clear_job(&mut self)
        ensures
            final(self).current_job is None,
            final(self).last_index_time == old(self).last_index_time,
    {
        self.current_job = None;
    }

    pub fn get_last_index_time(&self) -> (r: &Option<String>)
        ensures
            *r == self.last_index_time,
    {
        &self.last_index_time
    }

    pub fn get_current_job(&self) -> (r: &Option<JobInfo>)
        ensures
            *r == self.current_job,
    {
        &self.current_job
    }
}

impl Default for JobManager {
    fn default() -> (r: Self)
        ensures
            r.current_job is None,
            r.last_index_time is None,
    {
        JobManager::new()
    }
}

} // verus!
