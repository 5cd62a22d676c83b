//! What the compression worker decides for each job id it receives: mark
//! the job compressing and say what to compress, then record how it ended.
//! The worker itself (the channel, the blocking compression, the files) is
//! the caller's part.

use vstd::prelude::*;
use crate::compression::Algorithm;
use crate::models::{CompressionJob, JobStatus};
use crate::registry::InMemoryJobRegistry;

verus! {

/// The compression to run for one job.
#[derive(Debug)]
pub struct CompressionTask {
    pub source: String,
    pub output: String,
    pub arcname: String,
    pub algorithm: Algorithm,
    pub level: u32,
}

/// The compression that `job` asks for.
pub open spec fn task_for(job: CompressionJob) -> CompressionTask {
    CompressionTask {
        source: job.original_path,
        output: job.compressed_path,
        arcname: job.original_filename,
        algorithm: job.algorithm,
        level: job.level,
    }
}

/// `job` moved to `status` with `error_message`, updated at some time.
pub open spec fn moved_to(job: CompressionJob, after: CompressionJob, status: JobStatus, error_message: Option<String>) -> bool {
    after == (CompressionJob { status, error_message, updated_at: after.updated_at, ..job })
}

/// Starts work on `job_id`: the job becomes compressing (without error)
/// and the task to run is given; an unknown id gives nothing.
pub fn begin_job(registry: &mut InMemoryJobRegistry, job_id: &str) -> (r: Option<CompressionTask>)
    ensures
        old(registry)@.contains_key(job_id@) ==> {
            &&& final(registry)@.dom() == old(registry)@.dom()
            &&& moved_to(old(registry)@[job_id@], final(registry)@[job_id@], JobStatus::Compressing, None)
            &&& final(registry)@ == old(registry)@.insert(job_id@, final(registry)@[job_id@])
            &&& r == Some(task_for(final(registry)@[job_id@]))
        },
        !old(registry)@.contains_key(job_id@) ==> r is None && final(registry)@ == old(registry)@,
{
    registry.update_status(job_id, JobStatus::Compressing, None);
    let job = match registry.get(job_id) {
        Some(job) => job,
        None => return None,
    };
    Some(CompressionTask {
        source: job.original_path,
        output: job.compressed_path,
        arcname: job.original_filename,
        algorithm: job.algorithm,
        level: job.level,
    })
}

/// Records how the compression of `job_id` ended: completed, or failed
/// with the error's message.
pub fn finish_job(registry: &mut InMemoryJobRegistry, job_id: &str, outcome: Result<(), String>)
    ensures
        old(registry)@.contains_key(job_id@) ==> {
            &&& final(registry)@ == old(registry)@.insert(job_id@, final(registry)@[job_id@])
            &&& match outcome {
                Ok(()) => moved_to(old(registry)@[job_id@], final(registry)@[job_id@], JobStatus::Completed, None),
                Err(m) => moved_to(old(registry)@[job_id@], final(registry)@[job_id@], JobStatus::Failed, Some(m)),
            }
        },
        !old(registry)@.contains_key(job_id@) ==> final(registry)@ == old(registry)@,
{
    match outcome {
        Ok(()) => {
            registry.update_status(job_id, JobStatus::Completed, None);
        },
        Err(m) => {
            registry.update_status(job_id, JobStatus::Failed, Some(m));
        },
    }
}

/// A job that is begun and then finished keeps its id, names, files,
/// algorithm, level and creation time; it ends completed exactly when the
/// compression succeeded, and then it can be downloaded; otherwise it ends
/// failed, and a download is refused with the compression's message.
pub proof fn lemma_job_lifecycle(
    queued: CompressionJob,
    compressing: CompressionJob,
    done: CompressionJob,
    outcome: Result<(), String>,
)
    requires
        moved_to(queued, compressing, JobStatus::Compressing, None),
        match outcome {
            Ok(()) => moved_to(compressing, done, JobStatus::Completed, None),
            Err(m) => moved_to(compressing, done, JobStatus::Failed, Some(m)),
        },
    ensures
        done.job_id == queued.job_id,
        done.original_filename == queued.original_filename,
        done.archive_filename == queued.archive_filename,
        done.original_path == queued.original_path,
        done.compressed_path == queued.compressed_path,
        done.algorithm == queued.algorithm,
        done.level == queued.level,
        done.created_at == queued.created_at,
        (done.status == JobStatus::Completed) == (outcome is Ok),
        (crate::routes::download_refusal(done) is None) == (outcome is Ok),
        outcome matches Err(m) ==> crate::routes::download_refusal(done) == Some((409u16, m@)),
{
}

} // verus!
