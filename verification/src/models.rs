//! Compression jobs and the states they pass through.

use vstd::prelude::*;
use crate::compression::Algorithm;

verus! {

/// Lifecycle states of a compression job:
/// queued, then compressing, then completed or failed.
#[derive(Debug, Clone, Copy, PartialEq, Eq, Structural)]
pub enum JobStatus {
    Queued,
    Compressing,
    Completed,
    Failed,
}

/// The name under which a status is written in responses.
pub open spec fn status_name_spec(s: JobStatus) -> Seq<char> {
    match s {
        JobStatus::Queued => "queued"@,
        JobStatus::Compressing => "compressing"@,
        JobStatus::Completed => "completed"@,
        JobStatus::Failed => "failed"@,
    }
}

impl JobStatus {
    /// The lower-case name under which the status is written.
    pub fn name(&self) -> (r: &'static str)
        ensures
            r@ == status_name_spec(*self),
    {
        match self {
            JobStatus::Queued => "queued",
            JobStatus::Compressing => "compressing",
            JobStatus::Completed => "completed",
            JobStatus::Failed => "failed",
        }
    }

    /// Whether the job is waiting for or undergoing compression.
    pub fn in_progress(&self) -> (r: bool)
        ensures
            r == (*self == JobStatus::Queued || *self == JobStatus::Compressing),
    {
        match self {
            JobStatus::Queued | JobStatus::Compressing => true,
            _ => false,
        }
    }
}

/// The current UTC time as chrono reads it: the system clock
/// (`std::time::SystemTime::now`) turned into a `chrono::DateTime<Utc>` by
/// chrono's `From<SystemTime>`, which also takes a clock set before 1970,
/// given as its whole seconds since the Unix epoch (`timestamp`) and the
/// nanoseconds past them (`timestamp_subsec_nanos`). Nothing is claimed of
/// the value: it is the clock's.
#[verifier::external_body]
fn utc_now_parts() -> (r: (i64, u32)) {
    let now = chrono::DateTime::<chrono::Utc>::from(std::time::SystemTime::now());
    (now.timestamp(), now.timestamp_subsec_nanos())
}

/// The time `secs` seconds and `nanos` nanoseconds after the Unix epoch, in
/// nanoseconds.
pub open spec fn nanos_since_epoch(secs: i64, nanos: u32) -> int {
    secs * 1_000_000_000 + nanos
}

/// The current UTC time in nanoseconds since the Unix epoch.
pub(crate) fn utc_now_nanos() -> (r: i128)
    ensures
        exists|secs: i64, nanos: u32| r == #[trigger] nanos_since_epoch(secs, nanos),
{
    let (secs, nanos) = utc_now_parts();
    let r = (secs as i128) * 1_000_000_000 + (nanos as i128);
    assert(r == nanos_since_epoch(secs, nanos));
    r
}

/// Represents a single file compression job. Timestamps are UTC
/// nanoseconds since the Unix epoch.
#[derive(Debug)]
pub struct CompressionJob {
    pub job_id: String,
    pub original_filename: String,
    pub archive_filename: String,
    pub original_path: String,
    pub compressed_path: String,
    pub algorithm: Algorithm,
    pub level: u32,
    pub status: JobStatus,
    pub error_message: Option<String>,
    pub created_at: i128,
    pub updated_at: i128,
}

/// Whether two optional strings hold the same characters.
pub open spec fn same_message(a: Option<String>, b: Option<String>) -> bool {
    match (a, b) {
        (Some(x), Some(y)) => x@ == y@,
        (None, None) => true,
        _ => false,
    }
}

impl CompressionJob {
    /// A new job, queued, without error, created and updated at `now`.
    pub fn new_at(
        job_id: String,
        original_filename: String,
        archive_filename: String,
        original_path: String,
        compressed_path: String,
        algorithm: Algorithm,
        level: u32,
        now: i128,
    ) -> (r: Self)
        ensures
            r.job_id == job_id,
            r.original_filename == original_filename,
            r.archive_filename == archive_filename,
            r.original_path == original_path,
            r.compressed_path == compressed_path,
            r.algorithm == algorithm,
            r.level == level,
            r.status == JobStatus::Queued,
            r.error_message is None,
            r.created_at == now,
            r.updated_at == now,
    {
        CompressionJob {
            job_id,
            original_filename,
            archive_filename,
            original_path,
            compressed_path,
            algorithm,
            level,
            status: JobStatus::Queued,
            error_message: None,
            created_at: now,
            updated_at: now,
        }
    }

    /// A new job, queued, without error, created and updated now: `new_at`
    /// with the clock's reading.
    pub fn new(
        job_id: String,
        original_filename: String,
        archive_filename: String,
        original_path: String,
        compressed_path: String,
        algorithm: Algorithm,
        level: u32,
    ) -> (r: Self)
        ensures
            r.job_id == job_id,
            r.original_filename == original_filename,
            r.archive_filename == archive_filename,
            r.original_path == original_path,
            r.compressed_path == compressed_path,
            r.algorithm == algorithm,
            r.level == level,
            r.status == JobStatus::Queued,
            r.error_message is None,
            r.created_at == r.updated_at,
    {
        let now = utc_now_nanos();
        CompressionJob::new_at(job_id, original_filename, archive_filename, original_path, compressed_path, algorithm, level, now)
    }

    /// Sets the update time to `now`; nothing else changes.
    pub fn touch_at(&mut self, now: i128)
        ensures
            *final(self) == (CompressionJob { updated_at: now, ..*old(self) }),
    {
        self.updated_at = now;
    }

    /// Sets the update time to now (`touch_at` with the clock's reading);
    /// nothing else changes.
    pub fn touch(&mut self)
        ensures
            *final(self) == (CompressionJob { updated_at: final(self).updated_at, ..*old(self) }),
    {
        let now = utc_now_nanos();
        self.touch_at(now);
    }

    /// A copy of the job, equal to it in every field.
    pub fn snapshot(&self) -> (r: Self)
        ensures
            r == *self,
    {
        CompressionJob {
            job_id: self.job_id.clone(),
            original_filename: self.original_filename.clone(),
            archive_filename: self.archive_filename.clone(),
            original_path: self.original_path.clone(),
            compressed_path: self.compressed_path.clone(),
            algorithm: self.algorithm,
            level: self.level,
            status: self.status,
            error_message: match &self.error_message {
                Some(m) => Some(m.clone()),
                None => None,
            },
            created_at: self.created_at,
            updated_at: self.updated_at,
        }
    }
}

} // verus!
