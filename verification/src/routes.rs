//! What each HTTP endpoint decides, on the registry and the storage. The
//! caller moves the bytes: it reads the request, touches the disk, and
//! writes the answer.

use vstd::prelude::*;
use crate::compression::{Algorithm, extension_spec, parse_algorithm_spec};
use crate::error::{AppError, detail_spec, status_code_spec};
use crate::models::{CompressionJob, JobStatus};
use crate::registry::{InMemoryJobRegistry, distinct_ids, has_job, lists_exactly};
use crate::schemas::{
    BulkDeleteCompletedResponse, DeleteResponse, JobStatusResponse, UploadAcceptedResponse,
    status_response_spec,
};
use crate::storage::{FilesystemStorage, input_suffix, is_simple_uuid, new_simple_uuid};
use crate::paths::join_spec;
use crate::text::parse_unsigned;

verus! {

/// The status and detail of an error answer.
pub open spec fn error_view(e: AppError) -> (u16, Seq<char>) {
    (status_code_spec(e), detail_spec(e))
}

/// Looks up a job, answering 404 `Job not found.` when there is none.
pub fn get_job_or_404(registry: &InMemoryJobRegistry, job_id: &str) -> (r: Result<CompressionJob, AppError>)
    ensures
        match r {
            Ok(job) => registry@.contains_key(job_id@) && registry@[job_id@] == job,
            Err(e) => !registry@.contains_key(job_id@) && error_view(e) == (404u16, "Job not found."@),
        },
{
    match registry.get(job_id) {
        Some(job) => Ok(job),
        None => Err(AppError::NotFound("Job not found.".to_owned())),
    }
}

/// The name of the archive of a file: `<original>.<extension>`.
pub open spec fn archive_filename_spec(original: Seq<char>, algorithm: Algorithm) -> Seq<char> {
    original + seq!['.'] + extension_spec(algorithm)
}

/// The name of the archive of a file: `<original>.<extension>`.
pub fn build_archive_filename(original_filename: &str, algorithm: Algorithm) -> (r: String)
    ensures
        r@ == archive_filename_spec(original_filename@, algorithm),
{
    let mut r = original_filename.to_owned();
    r.append(".");
    r.append(algorithm.extension());
    proof {
        reveal_strlit(".");
        assert(r@ =~= archive_filename_spec(original_filename@, algorithm));
    }
    r
}

// ---------------------------------------------------------------------------
// GET /files
// ---------------------------------------------------------------------------

/// Jobs in order of creation, oldest first.
pub open spec fn sorted_by_creation(s: Seq<CompressionJob>) -> bool {
    forall|i: int, j: int| 0 <= i <= j < s.len() ==> #[trigger] s[i].created_at <= #[trigger] s[j].created_at
}

/// Some position of `perm` holds `j`.
pub open spec fn hits(perm: Seq<int>, j: int) -> bool {
    exists|k: int| 0 <= k < perm.len() && #[trigger] perm[k] == j
}

/// `r` is `input` rearranged: position `k` of `r` holds `input[perm[k]]`,
/// and `perm` takes every position of `input` exactly once.
pub open spec fn rearranges(r: Seq<CompressionJob>, input: Seq<CompressionJob>, perm: Seq<int>) -> bool {
    &&& perm.len() == r.len()
    &&& r.len() == input.len()
    &&& (forall|k: int| 0 <= k < perm.len() ==> 0 <= #[trigger] perm[k] < input.len() && r[k] == input[perm[k]])
    &&& (forall|a: int, b: int| 0 <= a < perm.len() && 0 <= b < perm.len() && a != b ==> #[trigger] perm[a] != #[trigger] perm[b])
    &&& (forall|j: int| 0 <= j < input.len() ==> #[trigger] hits(perm, j))
}

/// Orders jobs by creation time, oldest first.
pub fn sort_by_creation(jobs: Vec<CompressionJob>) -> (r: Vec<CompressionJob>)
    ensures
        sorted_by_creation(r@),
        r@.len() == jobs@.len(),
        exists|perm: Seq<int>| #[trigger] rearranges(r@, jobs@, perm),
{
    let n = jobs.len();
    let ghost input = jobs@;
    let mut rest = jobs;
    let mut r: Vec<CompressionJob> = Vec::new();
    let ghost mut perm: Seq<int> = Seq::empty();
    let ghost mut inv: Seq<int> = Seq::empty();
    let mut i: usize = 0;
    // Jobs are taken from the back of `rest`; `i` counts those taken, which
    // are `input[n - i ..]`.
    while i < n
        invariant
            n == input.len(),
            i <= n,
            rest@ == input.take(n - i),
            r@.len() == i,
            sorted_by_creation(r@),
            perm.len() == i,
            inv.len() == i,
            forall|k: int| 0 <= k < i ==> n - i <= #[trigger] perm[k] < n && r@[k] == input[perm[k]],
            forall|j: int| 0 <= j < i ==> 0 <= #[trigger] inv[j] < i && perm[inv[j]] == n - 1 - j,
            forall|k: int| 0 <= k < i ==> #[trigger] inv[n - 1 - perm[k]] == k,
        decreases n - i,
    {
        let job = rest.pop().unwrap();
        let ghost taken = (n - 1 - i) as int;
        assert(job == input[taken]);
        let m = r.len();
        let mut p: usize = 0;
        while p < m && r[p].created_at < job.created_at
            invariant
                m == r@.len(),
                p <= m,
                forall|k: int| 0 <= k < p ==> r@[k].created_at < job.created_at,
            decreases m - p,
        {
            p = p + 1;
        }
        let ghost old_r = r@;
        let ghost old_perm = perm;
        let ghost old_inv = inv;
        r.insert(p, job);
        proof {
            perm = old_perm.insert(p as int, taken);
            inv = Seq::new((i + 1) as nat, |j: int|
                if j == i { p as int } else if old_inv[j] >= p { old_inv[j] + 1 } else { old_inv[j] });
            assert forall|a: int, b: int| 0 <= a <= b < r@.len() implies #[trigger] r@[a].created_at <= #[trigger] r@[b].created_at by {
                if a < p && b < p {
                    assert(old_r[a].created_at <= old_r[b].created_at);
                } else if a < p && b == p {
                } else if a < p {
                    assert(old_r[a].created_at <= job.created_at);
                    assert(old_r[p as int].created_at >= job.created_at);
                    assert(old_r[p as int].created_at <= old_r[b - 1].created_at);
                } else if a == p && b > p {
                    assert(old_r[p as int].created_at >= job.created_at);
                    assert(old_r[p as int].created_at <= old_r[b - 1].created_at);
                } else if a > p {
                    assert(old_r[a - 1].created_at <= old_r[b - 1].created_at);
                }
            }
            assert forall|k: int| 0 <= k < i + 1 implies n - (i + 1) <= #[trigger] perm[k] < n && r@[k] == input[perm[k]] by {
                if k < p {
                    assert(perm[k] == old_perm[k]);
                } else if k > p {
                    assert(perm[k] == old_perm[k - 1]);
                }
            }
            assert forall|j: int| 0 <= j < i + 1 implies 0 <= #[trigger] inv[j] < i + 1 && perm[inv[j]] == n - 1 - j by {
                if j < i {
                    if old_inv[j] >= p {
                        assert(perm[old_inv[j] + 1] == old_perm[old_inv[j]]);
                    } else {
                        assert(perm[old_inv[j]] == old_perm[old_inv[j]]);
                    }
                }
            }
            assert forall|k: int| 0 <= k < i + 1 implies #[trigger] inv[n - 1 - perm[k]] == k by {
                if k < p {
                    assert(perm[k] == old_perm[k]);
                    assert(old_inv[n - 1 - old_perm[k]] == k);
                } else if k > p {
                    assert(perm[k] == old_perm[k - 1]);
                    assert(old_inv[n - 1 - old_perm[k - 1]] == k - 1);
                }
            }
        }
        assert(rest@ =~= input.take(n - (i + 1)));
        i = i + 1;
    }
    proof {
        assert forall|a: int, b: int| 0 <= a < perm.len() && 0 <= b < perm.len() && a != b implies #[trigger] perm[a] != #[trigger] perm[b] by {
            if perm[a] == perm[b] {
                assert(inv[n - 1 - perm[a]] == a);
                assert(inv[n - 1 - perm[b]] == b);
            }
        }
        assert forall|j: int| 0 <= j < input.len() implies #[trigger] hits(perm, j) by {
            let k = inv[n - 1 - j];
            assert(perm[k] == j);
        }
        assert(rearranges(r@, input, perm));
    }
    r
}

/// A rearrangement of a list of distinct jobs lists the same jobs.
proof fn lemma_rearranged_lists_exactly(
    input: Seq<CompressionJob>,
    r: Seq<CompressionJob>,
    perm: Seq<int>,
    m: Map<Seq<char>, CompressionJob>,
)
    requires
        lists_exactly(input, m),
        rearranges(r, input, perm),
    ensures
        lists_exactly(r, m),
{
    assert forall|a: int, b: int| 0 <= a < r.len() && 0 <= b < r.len() && a != b
        implies #[trigger] r[a].job_id@ != #[trigger] r[b].job_id@ by {
        assert(perm[a] != perm[b]);
        assert(input[perm[a]].job_id@ != input[perm[b]].job_id@);
    }
    assert forall|i: int| 0 <= i < r.len() implies m.contains_key(#[trigger] r[i].job_id@) && m[r[i].job_id@] == r[i] by {
        assert(r[i] == input[perm[i]]);
    }
    assert forall|key: Seq<char>| m.contains_key(key) implies has_job(r, key) by {
        assert(has_job(input, key));
        let j = choose|j: int| 0 <= j < input.len() && #[trigger] input[j].job_id@ == key;
        assert(hits(perm, j));
        let k = choose|k: int| 0 <= k < perm.len() && #[trigger] perm[k] == j;
        assert(r[k].job_id@ == key);
    }
}

/// Every job, oldest first.
pub fn sorted_jobs(registry: &InMemoryJobRegistry) -> (r: Vec<CompressionJob>)
    ensures
        lists_exactly(r@, registry@),
        sorted_by_creation(r@),
{
    let jobs = registry.list_all();
    let ghost input = jobs@;
    let r = sort_by_creation(jobs);
    proof {
        let perm = choose|perm: Seq<int>| #[trigger] rearranges(r@, input, perm);
        lemma_rearranged_lists_exactly(input, r@, perm, registry@);
    }
    r
}

/// `GET /files`: every job as clients see it, oldest first.
pub fn list_jobs(registry: &InMemoryJobRegistry) -> (r: Vec<JobStatusResponse>)
    ensures
        exists|jobs: Seq<CompressionJob>| {
            &&& lists_exactly(jobs, registry@)
            &&& sorted_by_creation(jobs)
            &&& r@.len() == jobs.len()
            &&& forall|i: int| 0 <= i < jobs.len() ==> r@[i] == status_response_spec(#[trigger] jobs[i])
        },
{
    let jobs = sorted_jobs(registry);
    let n = jobs.len();
    let mut r: Vec<JobStatusResponse> = Vec::new();
    let mut i: usize = 0;
    while i < n
        invariant
            n == jobs@.len(),
            i <= n,
            r@.len() == i,
            forall|k: int| 0 <= k < i ==> r@[k] == status_response_spec(#[trigger] jobs@[k]),
        decreases n - i,
    {
        r.push(JobStatusResponse::from_job(&jobs[i]));
        i = i + 1;
    }
    r
}

// ---------------------------------------------------------------------------
// GET /files/{job_id}/status
// ---------------------------------------------------------------------------

/// `GET /files/{job_id}/status`: the job as clients see it, or 404.
pub fn get_job_status(registry: &InMemoryJobRegistry, job_id: &str) -> (r: Result<JobStatusResponse, AppError>)
    ensures
        match r {
            Ok(resp) => registry@.contains_key(job_id@) && resp == status_response_spec(registry@[job_id@]),
            Err(e) => !registry@.contains_key(job_id@) && error_view(e) == (404u16, "Job not found."@),
        },
{
    let job = get_job_or_404(registry, job_id)?;
    Ok(JobStatusResponse::from_job(&job))
}

/// The status of a job shows the times stored with that job: a response
/// `get_job_status` can give for `job_id` has the job's creation time as
/// `created_at` and its last update time as `updated_at`, and the same holds
/// of every entry that `list_jobs` can give.
pub proof fn lemma_status_shows_stored_times(
    m: Map<Seq<char>, CompressionJob>,
    job_id: Seq<char>,
    resp: JobStatusResponse,
    listed: Seq<JobStatusResponse>,
    jobs: Seq<CompressionJob>,
)
    requires
        m.contains_key(job_id) ==> resp == status_response_spec(m[job_id]),
        lists_exactly(jobs, m),
        listed.len() == jobs.len(),
        forall|i: int| 0 <= i < jobs.len() ==> listed[i] == status_response_spec(#[trigger] jobs[i]),
    ensures
        m.contains_key(job_id) ==> resp.created_at == m[job_id].created_at && resp.updated_at == m[job_id].updated_at
            && resp.job_id@ == job_id,
        forall|i: int| 0 <= i < listed.len() ==> {
            &&& m.contains_key(#[trigger] listed[i].job_id@)
            &&& listed[i].created_at == m[listed[i].job_id@].created_at
            &&& listed[i].updated_at == m[listed[i].job_id@].updated_at
        },
{
    if m.contains_key(job_id) {
        crate::schemas::lemma_response_shows_the_job(m[job_id]);
        assert(has_job(jobs, job_id));
        let i = choose|i: int| 0 <= i < jobs.len() && #[trigger] jobs[i].job_id@ == job_id;
        assert(m[jobs[i].job_id@] == jobs[i]);
    }
    assert forall|i: int| 0 <= i < listed.len() implies {
        &&& m.contains_key(#[trigger] listed[i].job_id@)
        &&& listed[i].created_at == m[listed[i].job_id@].created_at
        &&& listed[i].updated_at == m[listed[i].job_id@].updated_at
    } by {
        crate::schemas::lemma_response_shows_the_job(jobs[i]);
        assert(m.contains_key(jobs[i].job_id@) && m[jobs[i].job_id@] == jobs[i]);
    }
}

// ---------------------------------------------------------------------------
// GET /files/{job_id}/download
// ---------------------------------------------------------------------------

/// What a download sends: the archive at `archive_path` with these headers.
#[derive(Debug)]
pub struct DownloadPlan {
    pub archive_path: String,
    pub content_type: String,
    pub content_disposition: String,
}

/// The `Content-Disposition` of an archive download.
pub open spec fn disposition_spec(archive_filename: Seq<char>) -> Seq<char> {
    "attachment; filename=\""@ + archive_filename + "\""@
}

/// Why a job cannot be downloaded yet, if it cannot: 409 while it is queued
/// or compressing, and 409 with its error (or `Compression failed.`) when it
/// failed.
pub open spec fn download_refusal(job: CompressionJob) -> Option<(u16, Seq<char>)> {
    match job.status {
        JobStatus::Queued => Some((409u16, "Compression is still in progress."@)),
        JobStatus::Compressing => Some((409u16, "Compression is still in progress."@)),
        JobStatus::Failed => Some((409u16, match job.error_message {
            Some(m) => m@,
            None => "Compression failed."@,
        })),
        JobStatus::Completed => None,
    }
}

/// `GET /files/{job_id}/download`, first part: finds the job and checks that
/// its archive is ready; gives the path to read and the headers to send.
pub fn plan_download(registry: &InMemoryJobRegistry, job_id: &str) -> (r: Result<DownloadPlan, AppError>)
    ensures
        !registry@.contains_key(job_id@) ==> (r matches Err(e) && error_view(e) == (404u16, "Job not found."@)),
        registry@.contains_key(job_id@) ==> match download_refusal(registry@[job_id@]) {
            Some(refusal) => r matches Err(e) && error_view(e) == refusal,
            None => r matches Ok(plan) && {
                let job = registry@[job_id@];
                &&& plan.archive_path == job.compressed_path
                &&& plan.content_type@ == crate::compression::media_type_spec(job.algorithm)
                &&& plan.content_disposition@ == disposition_spec(job.archive_filename@)
            },
        },
{
    let job = get_job_or_404(registry, job_id)?;
    match job.status {
        JobStatus::Queued | JobStatus::Compressing => {
            return Err(AppError::Conflict("Compression is still in progress.".to_owned()));
        },
        JobStatus::Failed => {
            let m = match job.error_message {
                Some(m) => m,
                None => "Compression failed.".to_owned(),
            };
            return Err(AppError::Conflict(m));
        },
        JobStatus::Completed => {},
    }
    let mut disposition = "attachment; filename=\"".to_owned();
    disposition.append(job.archive_filename.as_str());
    disposition.append("\"");
    Ok(DownloadPlan {
        archive_path: job.compressed_path,
        content_type: job.algorithm.media_type().to_owned(),
        content_disposition: disposition,
    })
}

/// `GET /files/{job_id}/download`, second part: 404 `Archive file not
/// found.` when the archive is missing from disk; otherwise the plan stands.
pub fn download_archive(plan: DownloadPlan, archive_exists: bool) -> (r: Result<DownloadPlan, AppError>)
    ensures
        archive_exists ==> r == Ok::<DownloadPlan, AppError>(plan),
        !archive_exists ==> (r matches Err(e) && error_view(e) == (404u16, "Archive file not found."@)),
{
    if !archive_exists {
        return Err(AppError::NotFound("Archive file not found.".to_owned()));
    }
    Ok(plan)
}

/// A job can be downloaded exactly when it is completed, and deleted
/// exactly when it is neither queued nor compressing: a completed job can be
/// both, a failed one only deleted, a waiting or running one neither.
pub proof fn lemma_download_and_delete_rules(job: CompressionJob)
    ensures
        (download_refusal(job) is None) == (job.status == JobStatus::Completed),
        (job.status == JobStatus::Completed) ==> !(job.status == JobStatus::Queued || job.status == JobStatus::Compressing),
        (job.status == JobStatus::Failed) ==> download_refusal(job) is Some
            && !(job.status == JobStatus::Queued || job.status == JobStatus::Compressing),
{
}

// ---------------------------------------------------------------------------
// DELETE /files/completed
// ---------------------------------------------------------------------------

/// Exactly the completed jobs of `m`, each once.
pub open spec fn lists_completed(jobs: Seq<CompressionJob>, m: Map<Seq<char>, CompressionJob>) -> bool {
    &&& distinct_ids(jobs)
    &&& forall|i: int| 0 <= i < jobs.len() ==> m.contains_key(#[trigger] jobs[i].job_id@)
        && m[jobs[i].job_id@] == jobs[i] && jobs[i].status == JobStatus::Completed
    &&& forall|k: Seq<char>| m.contains_key(k) && m[k].status == JobStatus::Completed ==> has_job(jobs, k)
}

/// `DELETE /files/completed`, first part: the completed jobs, whose files
/// are to be deleted.
pub fn completed_jobs(registry: &InMemoryJobRegistry) -> (r: Vec<CompressionJob>)
    ensures
        lists_completed(r@, registry@),
{
    let all = registry.list_all();
    let n = all.len();
    let mut r: Vec<CompressionJob> = Vec::new();
    let mut i: usize = 0;
    while i < n
        invariant
            n == all@.len(),
            i <= n,
            lists_exactly(all@, registry@),
            forall|k: int| 0 <= k < r@.len() ==> exists|j: int| 0 <= j < i && #[trigger] r@[k] == all@[j],
            forall|k: int| 0 <= k < r@.len() ==> (#[trigger] r@[k]).status == JobStatus::Completed,
            forall|j: int| 0 <= j < i && (#[trigger] all@[j]).status == JobStatus::Completed ==> has_job(r@, all@[j].job_id@),
            distinct_ids(r@),
        decreases n - i,
    {
        if all[i].status == JobStatus::Completed {
            let ghost before = r@;
            r.push(all[i].snapshot());
            proof {
                assert forall|a: int, b: int| 0 <= a < r@.len() && 0 <= b < r@.len() && a != b
                    implies #[trigger] r@[a].job_id@ != #[trigger] r@[b].job_id@ by {
                    if a < before.len() && b < before.len() {
                        assert(before[a].job_id@ != before[b].job_id@);
                    } else {
                        let x = if a < before.len() { a } else { b };
                        let j = choose|j: int| 0 <= j < i && #[trigger] before[x] == all@[j];
                        assert(all@[j].job_id@ != all@[i as int].job_id@);
                    }
                }
                assert forall|k: int| 0 <= k < r@.len() implies exists|j: int| 0 <= j < i + 1 && #[trigger] r@[k] == all@[j] by {
                    if k < before.len() {
                        let j = choose|j: int| 0 <= j < i && #[trigger] before[k] == all@[j];
                        assert(r@[k] == all@[j]);
                    } else {
                        assert(r@[k] == all@[i as int]);
                    }
                }
                assert forall|j: int| 0 <= j < i + 1 && (#[trigger] all@[j]).status == JobStatus::Completed
                    implies has_job(r@, all@[j].job_id@) by {
                    if j < i {
                        let k = choose|k: int| 0 <= k < before.len() && #[trigger] before[k].job_id@ == all@[j].job_id@;
                        assert(r@[k].job_id@ == all@[j].job_id@);
                    } else {
                        assert(r@[before.len() as int].job_id@ == all@[j].job_id@);
                    }
                }
            }
        }
        i = i + 1;
    }
    proof {
        assert forall|k: int| 0 <= k < r@.len() implies registry@.contains_key(#[trigger] r@[k].job_id@)
            && registry@[r@[k].job_id@] == r@[k] && r@[k].status == JobStatus::Completed by {
            let j = choose|j: int| 0 <= j < n && #[trigger] r@[k] == all@[j];
        }
        assert forall|key: Seq<char>| registry@.contains_key(key) && registry@[key].status == JobStatus::Completed
            implies has_job(r@, key) by {
            assert(has_job(all@, key));
            let j = choose|j: int| 0 <= j < all@.len() && #[trigger] all@[j].job_id@ == key;
        }
    }
    r
}

/// How many of `flags` are set.
pub open spec fn count_true(flags: Seq<bool>) -> nat
    decreases flags.len(),
{
    if flags.len() == 0 {
        0
    } else {
        count_true(flags.drop_last()) + if flags.last() { 1nat } else { 0nat }
    }
}

/// No more files are counted as deleted than removals were attempted: at
/// most two per deleted job.
pub proof fn lemma_count_true_bound(flags: Seq<bool>)
    ensures
        count_true(flags) <= flags.len(),
    decreases flags.len(),
{
    if flags.len() > 0 {
        lemma_count_true_bound(flags.drop_last());
    }
}

/// The registry without the jobs whose ids `jobs` lists.
pub open spec fn without_jobs(m: Map<Seq<char>, CompressionJob>, jobs: Seq<CompressionJob>) -> Map<Seq<char>, CompressionJob>
    decreases jobs.len(),
{
    if jobs.len() == 0 {
        m
    } else {
        without_jobs(m, jobs.drop_last()).remove(jobs.last().job_id@)
    }
}

proof fn lemma_without_jobs(m: Map<Seq<char>, CompressionJob>, jobs: Seq<CompressionJob>, k: Seq<char>)
    ensures
        without_jobs(m, jobs).contains_key(k) == (m.contains_key(k) && !has_job(jobs, k)),
        without_jobs(m, jobs).contains_key(k) ==> without_jobs(m, jobs)[k] == m[k],
    decreases jobs.len(),
{
    if jobs.len() > 0 {
        lemma_without_jobs(m, jobs.drop_last(), k);
        if has_job(jobs.drop_last(), k) {
            let i = choose|i: int| 0 <= i < jobs.drop_last().len() && #[trigger] jobs.drop_last()[i].job_id@ == k;
            assert(jobs[i].job_id@ == k);
        }
        if has_job(jobs, k) && k != jobs.last().job_id@ {
            let i = choose|i: int| 0 <= i < jobs.len() && #[trigger] jobs[i].job_id@ == k;
            assert(jobs.drop_last()[i].job_id@ == k);
        }
        if k == jobs.last().job_id@ {
            assert(jobs[jobs.len() - 1].job_id@ == k);
        }
    }
}

/// Deleting the completed jobs forgets exactly those: every job that is not
/// completed stays as it was.
pub proof fn lemma_delete_completed_keeps_others(m: Map<Seq<char>, CompressionJob>, completed: Seq<CompressionJob>, k: Seq<char>)
    requires
        lists_completed(completed, m),
        m.contains_key(k),
    ensures
        m[k].status == JobStatus::Completed ==> !without_jobs(m, completed).contains_key(k),
        m[k].status != JobStatus::Completed ==> without_jobs(m, completed).contains_key(k)
            && without_jobs(m, completed)[k] == m[k],
{
    lemma_without_jobs(m, completed, k);
    if has_job(completed, k) {
        let i = choose|i: int| 0 <= i < completed.len() && #[trigger] completed[i].job_id@ == k;
        assert(m[completed[i].job_id@] == completed[i]);
    }
}

/// `DELETE /files/completed`, second part: forgets the given jobs and
/// counts the files that were deleted (`file_deleted` holds one flag per
/// file removal attempted).
pub fn delete_completed(
    registry: &mut InMemoryJobRegistry,
    completed: &Vec<CompressionJob>,
    file_deleted: &Vec<bool>,
) -> (r: BulkDeleteCompletedResponse)
    ensures
        final(registry)@ == without_jobs(old(registry)@, completed@),
        r.deleted_jobs == completed@.len(),
        r.deleted_files == count_true(file_deleted@),
{
    let n = completed.len();
    let mut i: usize = 0;
    while i < n
        invariant
            n == completed@.len(),
            i <= n,
            registry@ == without_jobs(old(registry)@, completed@.take(i as int)),
        decreases n - i,
    {
        registry.remove(completed[i].job_id.as_str());
        assert(completed@.take(i + 1).drop_last() =~= completed@.take(i as int));
        i = i + 1;
    }
    assert(completed@.take(n as int) =~= completed@);
    let m = file_deleted.len();
    let mut count: usize = 0;
    let mut j: usize = 0;
    while j < m
        invariant
            m == file_deleted@.len(),
            j <= m,
            count == count_true(file_deleted@.take(j as int)),
        decreases m - j,
    {
        proof {
            assert(file_deleted@.take(j + 1).drop_last() =~= file_deleted@.take(j as int));
            lemma_count_true_bound(file_deleted@.take(j as int));
        }
        if file_deleted[j] {
            count = count + 1;
        }
        j = j + 1;
    }
    assert(file_deleted@.take(m as int) =~= file_deleted@);
    BulkDeleteCompletedResponse { deleted_jobs: n, deleted_files: count }
}

// ---------------------------------------------------------------------------
// DELETE /files/{job_id}
// ---------------------------------------------------------------------------

/// The files of a job that is about to be deleted.
#[derive(Debug)]
pub struct DeletePlan {
    pub original_path: String,
    pub compressed_path: String,
}

/// `DELETE /files/{job_id}`, first part: 404 for an unknown job, 409 while
/// it is queued or compressing; otherwise the files to delete.
pub fn plan_delete(registry: &InMemoryJobRegistry, job_id: &str) -> (r: Result<DeletePlan, AppError>)
    ensures
        !registry@.contains_key(job_id@) ==> (r matches Err(e) && error_view(e) == (404u16, "Job not found."@)),
        registry@.contains_key(job_id@) ==> {
            let job = registry@[job_id@];
            if job.status == JobStatus::Queued || job.status == JobStatus::Compressing {
                r matches Err(e) && error_view(e) == (409u16, "Cannot delete files while compression is in progress."@)
            } else {
                r matches Ok(plan) && plan.original_path == job.original_path && plan.compressed_path == job.compressed_path
            }
        },
{
    let job = get_job_or_404(registry, job_id)?;
    if job.status.in_progress() {
        return Err(AppError::Conflict("Cannot delete files while compression is in progress.".to_owned()));
    }
    Ok(DeletePlan { original_path: job.original_path, compressed_path: job.compressed_path })
}

/// `DELETE /files/{job_id}`, second part: forgets the job; `deleted` tells
/// whether either of its files was removed from disk.
pub fn delete_job(
    registry: &mut InMemoryJobRegistry,
    job_id: String,
    original_deleted: bool,
    compressed_deleted: bool,
) -> (r: DeleteResponse)
    ensures
        final(registry)@ == old(registry)@.remove(job_id@),
        r.job_id == job_id,
        r.deleted == (original_deleted || compressed_deleted),
{
    registry.remove(job_id.as_str());
    DeleteResponse { job_id, deleted: original_deleted || compressed_deleted }
}

// ---------------------------------------------------------------------------
// POST /files
// ---------------------------------------------------------------------------

/// The form fields an upload reads.
#[derive(Debug, Clone, Copy, PartialEq, Eq, Structural)]
pub enum FormField {
    File,
    Algorithm,
    Level,
    Other,
}

/// Which of the form fields a field name is.
pub open spec fn form_field_spec(name: Seq<char>) -> FormField {
    if name == "file"@ {
        FormField::File
    } else if name == "algorithm"@ {
        FormField::Algorithm
    } else if name == "level"@ {
        FormField::Level
    } else {
        FormField::Other
    }
}

/// Which of the form fields a field name is.
pub fn form_field(name: &str) -> (r: FormField)
    ensures
        r == form_field_spec(name@),
{
    proof {
        reveal_strlit("file");
        reveal_strlit("algorithm");
        reveal_strlit("level");
    }
    if crate::text::str_equals(name, "file") {
        FormField::File
    } else if crate::text::str_equals(name, "algorithm") {
        FormField::Algorithm
    } else if crate::text::str_equals(name, "level") {
        FormField::Level
    } else {
        FormField::Other
    }
}

/// What an upload form has given so far.
#[derive(Debug)]
pub struct UploadForm {
    pub filename: Option<String>,
    pub data: Option<Vec<u8>>,
    pub algorithm: Algorithm,
    pub level: u32,
}

impl UploadForm {
    /// Nothing given yet: 7z at level 5 unless the form says otherwise.
    pub fn new() -> (r: Self)
        ensures
            r.filename is None,
            r.data is None,
            r.algorithm == Algorithm::SevenZ,
            r.level == 5,
    {
        UploadForm { filename: None, data: None, algorithm: Algorithm::SevenZ, level: 5 }
    }

    /// The `file` field: its file name (if it has one) and its bytes.
    pub fn set_file(&mut self, file_name: Option<String>, data: Vec<u8>)
        ensures
            final(self).filename == file_name,
            final(self).data == Some(data),
            final(self).algorithm == old(self).algorithm,
            final(self).level == old(self).level,
    {
        self.filename = file_name;
        self.data = Some(data);
    }

    /// The `algorithm` field: `7z` or `zip`; any other name is refused
    /// with 400 `Unknown algorithm: <name>`.
    pub fn set_algorithm(&mut self, text: &str) -> (r: Result<(), AppError>)
        ensures
            match parse_algorithm_spec(text@) {
                Ok(a) => r is Ok && final(self).algorithm == a,
                Err(m) => (r matches Err(e) && error_view(e) == (400u16, m)) && final(self).algorithm == old(self).algorithm,
            },
            final(self).filename == old(self).filename,
            final(self).data == old(self).data,
            final(self).level == old(self).level,
    {
        match Algorithm::parse_name(text) {
            Ok(a) => {
                self.algorithm = a;
                Ok(())
            },
            Err(m) => Err(AppError::BadRequest(m)),
        }
    }

    /// The `level` field: a number that does not read as one stands for 5;
    /// a level outside 1–5 is refused with 400.
    pub fn set_level(&mut self, text: &str) -> (r: Result<(), AppError>)
        ensures
            ({
                let level: u32 = match crate::text::parse_unsigned_spec(text@, u32::MAX as nat) {
                    Some(v) => v as u32,
                    None => 5,
                };
                &&& final(self).level == level
                &&& 1 <= level <= 5 ==> r is Ok
                &&& !(1 <= level <= 5) ==> (r matches Err(e) && error_view(e) == (400u16, "Level must be between 1 and 5."@))
            }),
            final(self).filename == old(self).filename,
            final(self).data == old(self).data,
            final(self).algorithm == old(self).algorithm,
    {
        let level: u32 = match parse_unsigned(text, 4294967295) {
            Some(v) => v as u32,
            None => 5,
        };
        self.level = level;
        if !(1 <= level && level <= 5) {
            return Err(AppError::BadRequest("Level must be between 1 and 5.".to_owned()));
        }
        Ok(())
    }
}

/// An upload whose form was complete: where its file goes and what its job
/// will be.
#[derive(Debug)]
pub struct PreparedUpload {
    pub job_id: String,
    pub filename: String,
    pub data: Vec<u8>,
    pub original_path: String,
    pub compressed_path: String,
    pub archive_filename: String,
    pub algorithm: Algorithm,
    pub level: u32,
}

/// `POST /files`, second part: checks that the form named a file and gave
/// its bytes, and chooses the job id and the paths.
pub fn prepare_upload(form: UploadForm, storage: &FilesystemStorage) -> (r: Result<PreparedUpload, AppError>)
    ensures
        match form.filename {
            Some(f) if f@.len() > 0 => match form.data {
                Some(d) => r matches Ok(up) && {
                    &&& up.filename == f
                    &&& up.data == d
                    &&& up.algorithm == form.algorithm
                    &&& up.level == form.level
                    &&& is_simple_uuid(up.job_id@)
                    &&& (exists|token: Seq<char>| is_simple_uuid(token)
                        && up.original_path@ == join_spec(storage.input_dir()@, token + input_suffix(f@)))
                    &&& up.compressed_path@ == join_spec(storage.output_dir()@, up.job_id@ + seq!['.'] + extension_spec(form.algorithm))
                    &&& up.archive_filename@ == archive_filename_spec(f@, form.algorithm)
                },
                None => r matches Err(e) && error_view(e) == (400u16, "A file is required."@),
            },
            _ => r matches Err(e) && error_view(e) == (400u16, "A file name is required."@),
        },
{
    let filename = match form.filename {
        Some(f) => {
            if f.as_str().unicode_len() == 0 {
                return Err(AppError::BadRequest("A file name is required.".to_owned()));
            }
            f
        },
        None => {
            return Err(AppError::BadRequest("A file name is required.".to_owned()));
        },
    };
    let data = match form.data {
        Some(d) => d,
        None => {
            return Err(AppError::BadRequest("A file is required.".to_owned()));
        },
    };
    let job_id = new_simple_uuid();
    let original_path = storage.build_input_path(filename.as_str());
    let compressed_path = storage.build_output_path(job_id.as_str(), form.algorithm);
    let archive_filename = build_archive_filename(filename.as_str(), form.algorithm);
    Ok(PreparedUpload {
        job_id,
        filename,
        data,
        original_path,
        compressed_path,
        archive_filename,
        algorithm: form.algorithm,
        level: form.level,
    })
}

/// `POST /files`, last part, once the file is saved: registers a queued job
/// for the upload and gives the answer.
pub fn upload_file(registry: &mut InMemoryJobRegistry, upload: &PreparedUpload) -> (r: UploadAcceptedResponse)
    ensures
        exists|job: CompressionJob| {
            &&& final(registry)@ == old(registry)@.insert(upload.job_id@, job)
            &&& job.job_id == upload.job_id
            &&& job.original_filename == upload.filename
            &&& job.archive_filename == upload.archive_filename
            &&& job.original_path == upload.original_path
            &&& job.compressed_path == upload.compressed_path
            &&& job.algorithm == upload.algorithm
            &&& job.level == upload.level
            &&& job.status == JobStatus::Queued
            &&& job.error_message is None
            &&& job.created_at == job.updated_at
        },
        r.job_id == upload.job_id,
        r.filename == upload.filename,
        r.archive_name == upload.archive_filename,
        r.status == JobStatus::Queued,
        r.algorithm == upload.algorithm,
        r.level == upload.level,
{
    let job = CompressionJob::new(
        upload.job_id.clone(),
        upload.filename.clone(),
        upload.archive_filename.clone(),
        upload.original_path.clone(),
        upload.compressed_path.clone(),
        upload.algorithm,
        upload.level,
    );
    let status = job.status;
    registry.add(job);
    UploadAcceptedResponse {
        job_id: upload.job_id.clone(),
        filename: upload.filename.clone(),
        archive_name: upload.archive_filename.clone(),
        status,
        algorithm: upload.algorithm,
        level: upload.level,
    }
}

} // verus!
