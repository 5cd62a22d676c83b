//! The bodies of the answers to HTTP clients.

use vstd::prelude::*;
use crate::compression::Algorithm;
use crate::models::{CompressionJob, JobStatus};

verus! {

/// The state of one job as clients see it.
#[derive(Debug)]
pub struct JobStatusResponse {
    pub job_id: String,
    pub filename: String,
    pub status: JobStatus,
    pub created_at: i128,
    pub updated_at: i128,
    pub archive_name: String,
    pub algorithm: Algorithm,
    pub level: u32,
    pub error_message: Option<String>,
}

/// What clients are shown of `job`.
pub open spec fn status_response_spec(job: CompressionJob) -> JobStatusResponse {
    JobStatusResponse {
        job_id: job.job_id,
        filename: job.original_filename,
        status: job.status,
        created_at: job.created_at,
        updated_at: job.updated_at,
        archive_name: job.archive_filename,
        algorithm: job.algorithm,
        level: job.level,
        error_message: job.error_message,
    }
}

/// What clients are shown of a job is that job's own data: its id, file
/// name, status, archive name, algorithm, level and error, and its own two
/// times, creation as creation and last update as last update.
pub proof fn lemma_response_shows_the_job(job: CompressionJob)
    ensures
        status_response_spec(job).job_id == job.job_id,
        status_response_spec(job).filename == job.original_filename,
        status_response_spec(job).status == job.status,
        status_response_spec(job).created_at == job.created_at,
        status_response_spec(job).updated_at == job.updated_at,
        status_response_spec(job).archive_name == job.archive_filename,
        status_response_spec(job).algorithm == job.algorithm,
        status_response_spec(job).level == job.level,
        status_response_spec(job).error_message == job.error_message,
{
}

impl JobStatusResponse {
    /// What clients are shown of `job`.
    pub fn from_job(job: &CompressionJob) -> (r: Self)
        ensures
            r == status_response_spec(*job),
            r.job_id == job.job_id,
            r.filename == job.original_filename,
            r.status == job.status,
            r.created_at == job.created_at,
            r.updated_at == job.updated_at,
            r.archive_name == job.archive_filename,
            r.algorithm == job.algorithm,
            r.level == job.level,
            r.error_message == job.error_message,
    {
        JobStatusResponse {
            job_id: job.job_id.clone(),
            filename: job.original_filename.clone(),
            status: job.status,
            created_at: job.created_at,
            updated_at: job.updated_at,
            archive_name: job.archive_filename.clone(),
            algorithm: job.algorithm,
            level: job.level,
            error_message: match &job.error_message {
                Some(m) => Some(m.clone()),
                None => None,
            },
        }
    }
}

/// The answer to an accepted upload.
#[derive(Debug)]
pub struct UploadAcceptedResponse {
    pub job_id: String,
    pub filename: String,
    pub archive_name: String,
    pub status: JobStatus,
    pub algorithm: Algorithm,
    pub level: u32,
}

/// The answer to deleting one job.
#[derive(Debug)]
pub struct DeleteResponse {
    pub job_id: String,
    pub deleted: bool,
}

/// The answer to deleting every completed job.
#[derive(Debug)]
pub struct BulkDeleteCompletedResponse {
    pub deleted_jobs: usize,
    pub deleted_files: usize,
}

} // verus!
