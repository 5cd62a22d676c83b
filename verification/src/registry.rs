//! The in-memory job registry: at most one job per job id.

use vstd::prelude::*;
use crate::models::{CompressionJob, JobStatus};
use crate::text::str_equals;

verus! {

/// No two jobs of `s` share a job id.
pub open spec fn distinct_ids(s: Seq<CompressionJob>) -> bool {
    forall|i: int, j: int| 0 <= i < s.len() && 0 <= j < s.len() && i != j
        ==> #[trigger] s[i].job_id@ != #[trigger] s[j].job_id@
}

/// Some job of `s` has the id `k`.
pub open spec fn has_job(s: Seq<CompressionJob>, k: Seq<char>) -> bool {
    exists|i: int| 0 <= i < s.len() && #[trigger] s[i].job_id@ == k
}

/// The job of `s` with the id `k`.
pub open spec fn job_for(s: Seq<CompressionJob>, k: Seq<char>) -> CompressionJob {
    s[choose|i: int| 0 <= i < s.len() && #[trigger] s[i].job_id@ == k]
}

/// The jobs of `s` keyed by their ids.
pub open spec fn jobs_view(s: Seq<CompressionJob>) -> Map<Seq<char>, CompressionJob> {
    Map::new(|k: Seq<char>| has_job(s, k), |k: Seq<char>| job_for(s, k))
}

/// `jobs` lists exactly the jobs of `m`, each once.
pub open spec fn lists_exactly(jobs: Seq<CompressionJob>, m: Map<Seq<char>, CompressionJob>) -> bool {
    &&& distinct_ids(jobs)
    &&& forall|i: int| 0 <= i < jobs.len() ==> m.contains_key(#[trigger] jobs[i].job_id@) && m[jobs[i].job_id@] == jobs[i]
    &&& forall|k: Seq<char>| m.contains_key(k) ==> has_job(jobs, k)
}

proof fn lemma_job_for(s: Seq<CompressionJob>, i: int)
    requires
        distinct_ids(s),
        0 <= i < s.len(),
    ensures
        has_job(s, s[i].job_id@),
        job_for(s, s[i].job_id@) == s[i],
{
    let k = s[i].job_id@;
    assert(has_job(s, k));
    let j = choose|j: int| 0 <= j < s.len() && #[trigger] s[j].job_id@ == k;
    if j != i {
        assert(s[i].job_id@ != s[j].job_id@);
    }
}

proof fn lemma_lists_own_view(s: Seq<CompressionJob>)
    requires
        distinct_ids(s),
    ensures
        lists_exactly(s, jobs_view(s)),
{
    assert forall|i: int| 0 <= i < s.len() implies jobs_view(s).contains_key(#[trigger] s[i].job_id@)
        && jobs_view(s)[s[i].job_id@] == s[i] by {
        lemma_job_for(s, i);
    }
}

/// In-memory job registry: a list of jobs whose ids are all different.
pub struct InMemoryJobRegistry {
    jobs: Vec<CompressionJob>,
}

impl View for InMemoryJobRegistry {
    type V = Map<Seq<char>, CompressionJob>;

    closed spec fn view(&self) -> Map<Seq<char>, CompressionJob> {
        jobs_view(self.jobs@)
    }
}

impl InMemoryJobRegistry {
    #[verifier::type_invariant]
    spec fn wf(self) -> bool {
        distinct_ids(self.jobs@)
    }

    /// An empty registry.
    pub fn new() -> (r: Self)
        ensures
            r@ == Map::<Seq<char>, CompressionJob>::empty(),
    {
        let r = InMemoryJobRegistry { jobs: Vec::new() };
        assert(r@ =~= Map::<Seq<char>, CompressionJob>::empty());
        r
    }

    fn find_index(&self, job_id: &str) -> (r: Option<usize>)
        ensures
            match r {
                Some(i) => i < self.jobs@.len() && self.jobs@[i as int].job_id@ == job_id@,
                None => !has_job(self.jobs@, job_id@),
            },
    {
        let n = self.jobs.len();
        let mut i: usize = 0;
        while i < n
            invariant
                n == self.jobs@.len(),
                i <= n,
                forall|j: int| 0 <= j < i ==> #[trigger] self.jobs@[j].job_id@ != job_id@,
            decreases n - i,
        {
            if str_equals(self.jobs[i].job_id.as_str(), job_id) {
                return Some(i);
            }
            i = i + 1;
        }
        None
    }

    /// Stores `job` under its id, replacing any job with the same id.
    pub fn add(&mut self, job: CompressionJob)
        ensures
            final(self)@ == old(self)@.insert(job.job_id@, job),
    {
        proof {
            use_type_invariant(&*self);
        }
        let ghost old_jobs = self.jobs@;
        let ghost k = job.job_id@;
        match self.find_index(job.job_id.as_str()) {
            Some(i) => {
                let mut jobs: Vec<CompressionJob> = Vec::new();
                std::mem::swap(&mut jobs, &mut self.jobs);
                jobs.set(i, job);
                proof {
                    let s = jobs@;
                    assert(s == old_jobs.update(i as int, job));
                    assert(distinct_ids(s)) by {
                        assert forall|a: int, b: int| 0 <= a < s.len() && 0 <= b < s.len() && a != b
                            implies #[trigger] s[a].job_id@ != #[trigger] s[b].job_id@ by {
                            if a != i && b != i {
                                assert(old_jobs[a].job_id@ != old_jobs[b].job_id@);
                            } else if a == i {
                                assert(old_jobs[i as int].job_id@ != old_jobs[b].job_id@);
                            } else {
                                assert(old_jobs[a].job_id@ != old_jobs[i as int].job_id@);
                            }
                        }
                    }
                    lemma_registry_update(old_jobs, s, i as int);
                }
                self.jobs = jobs;
            },
            None => {
                let mut jobs: Vec<CompressionJob> = Vec::new();
                std::mem::swap(&mut jobs, &mut self.jobs);
                jobs.push(job);
                proof {
                    let s = jobs@;
                    assert(s == old_jobs.push(job));
                    assert(distinct_ids(s)) by {
                        assert forall|a: int, b: int| 0 <= a < s.len() && 0 <= b < s.len() && a != b
                            implies #[trigger] s[a].job_id@ != #[trigger] s[b].job_id@ by {
                            if a < old_jobs.len() && b < old_jobs.len() {
                                assert(old_jobs[a].job_id@ != old_jobs[b].job_id@);
                            } else if a < old_jobs.len() {
                                assert(old_jobs[a].job_id@ == s[a].job_id@);
                            } else {
                                assert(old_jobs[b].job_id@ == s[b].job_id@);
                            }
                        }
                    }
                    lemma_registry_push(old_jobs, job);
                }
                self.jobs = jobs;
            },
        }
    }

    /// The job stored under `job_id`, if any.
    pub fn get(&self, job_id: &str) -> (r: Option<CompressionJob>)
        ensures
            match r {
                Some(job) => self@.contains_key(job_id@) && self@[job_id@] == job,
                None => !self@.contains_key(job_id@),
            },
    {
        proof {
            use_type_invariant(self);
        }
        match self.find_index(job_id) {
            Some(i) => {
                proof {
                    lemma_job_for(self.jobs@, i as int);
                }
                Some(self.jobs[i].snapshot())
            },
            None => None,
        }
    }

    /// Every stored job, each once.
    pub fn list_all(&self) -> (r: Vec<CompressionJob>)
        ensures
            lists_exactly(r@, self@),
    {
        proof {
            use_type_invariant(self);
        }
        let n = self.jobs.len();
        let mut r: Vec<CompressionJob> = Vec::new();
        let mut i: usize = 0;
        while i < n
            invariant
                n == self.jobs@.len(),
                i <= n,
                r@ == self.jobs@.take(i as int),
            decreases n - i,
        {
            r.push(self.jobs[i].snapshot());
            assert(r@ =~= self.jobs@.take(i + 1));
            i = i + 1;
        }
        assert(r@ =~= self.jobs@);
        proof {
            lemma_lists_own_view(self.jobs@);
        }
        r
    }

    /// Sets the status and error message of the job stored under `job_id`
    /// and marks it updated at `now`; gives the updated job, or nothing when
    /// no job has that id.
    pub fn update_status_at(
        &mut self,
        job_id: &str,
        status: JobStatus,
        error_message: Option<String>,
        now: i128,
    ) -> (r: Option<CompressionJob>)
        ensures
            old(self)@.contains_key(job_id@) ==> {
                &&& r is Some
                &&& r->0 == (CompressionJob {
                    status,
                    error_message,
                    updated_at: now,
                    ..old(self)@[job_id@]
                })
                &&& final(self)@ == old(self)@.insert(job_id@, r->0)
            },
            !old(self)@.contains_key(job_id@) ==> r is None && final(self)@ == old(self)@,
    {
        proof {
            use_type_invariant(&*self);
        }
        let ghost old_jobs = self.jobs@;
        match self.find_index(job_id) {
            Some(i) => {
                proof {
                    lemma_job_for(old_jobs, i as int);
                }
                let mut job = self.jobs[i].snapshot();
                job.status = status;
                job.error_message = error_message;
                job.touch_at(now);
                let updated = job.snapshot();
                let ghost k = job.job_id@;
                let mut jobs: Vec<CompressionJob> = Vec::new();
                std::mem::swap(&mut jobs, &mut self.jobs);
                jobs.set(i, job);
                proof {
                    let s = jobs@;
                    assert(s == old_jobs.update(i as int, updated));
                    assert(distinct_ids(s)) by {
                        assert forall|a: int, b: int| 0 <= a < s.len() && 0 <= b < s.len() && a != b
                            implies #[trigger] s[a].job_id@ != #[trigger] s[b].job_id@ by {
                            if a != i && b != i {
                                assert(old_jobs[a].job_id@ != old_jobs[b].job_id@);
                            } else if a == i {
                                assert(old_jobs[i as int].job_id@ != old_jobs[b].job_id@);
                            } else {
                                assert(old_jobs[a].job_id@ != old_jobs[i as int].job_id@);
                            }
                        }
                    }
                    lemma_registry_update(old_jobs, s, i as int);
                }
                self.jobs = jobs;
                Some(updated)
            },
            None => None,
        }
    }

    /// Sets the status and error message of the job stored under `job_id`
    /// and marks it updated now (`update_status_at` with the clock's
    /// reading); gives the updated job, or nothing when no job has that id.
    pub fn update_status(&mut self, job_id: &str, status: JobStatus, error_message: Option<String>) -> (r: Option<CompressionJob>)
        ensures
            old(self)@.contains_key(job_id@) ==> {
                &&& r is Some
                &&& r->0 == (CompressionJob {
                    status,
                    error_message,
                    updated_at: r->0.updated_at,
                    ..old(self)@[job_id@]
                })
                &&& final(self)@ == old(self)@.insert(job_id@, r->0)
            },
            !old(self)@.contains_key(job_id@) ==> r is None && final(self)@ == old(self)@,
    {
        let now = crate::models::utc_now_nanos();
        self.update_status_at(job_id, status, error_message, now)
    }

    /// Removes and gives the job stored under `job_id`, if any.
    pub fn remove(&mut self, job_id: &str) -> (r: Option<CompressionJob>)
        ensures
            final(self)@ == old(self)@.remove(job_id@),
            match r {
                Some(job) => old(self)@.contains_key(job_id@) && old(self)@[job_id@] == job,
                None => !old(self)@.contains_key(job_id@),
            },
    {
        proof {
            use_type_invariant(&*self);
        }
        let ghost old_jobs = self.jobs@;
        match self.find_index(job_id) {
            Some(i) => {
                proof {
                    lemma_job_for(old_jobs, i as int);
                }
                let mut jobs: Vec<CompressionJob> = Vec::new();
                std::mem::swap(&mut jobs, &mut self.jobs);
                let job = jobs.remove(i);
                proof {
                    let s = jobs@;
                    assert(s == old_jobs.remove(i as int));
                    assert(distinct_ids(s)) by {
                        assert forall|a: int, b: int| 0 <= a < s.len() && 0 <= b < s.len() && a != b
                            implies #[trigger] s[a].job_id@ != #[trigger] s[b].job_id@ by {
                            let a2 = if a < i { a } else { a + 1 };
                            let b2 = if b < i { b } else { b + 1 };
                            assert(s[a] == old_jobs[a2]);
                            assert(s[b] == old_jobs[b2]);
                            assert(old_jobs[a2].job_id@ != old_jobs[b2].job_id@);
                        }
                    }
                    lemma_registry_remove(old_jobs, s, i as int);
                }
                self.jobs = jobs;
                Some(job)
            },
            None => {
                assert(old_jobs == self.jobs@);
                assert(self@ =~= old(self)@.remove(job_id@));
                None
            },
        }
    }
}

/// Reading a job back after storing it gives the stored job, and every
/// other job is as it was.
pub proof fn lemma_get_after_add(before: Map<Seq<char>, CompressionJob>, job: CompressionJob)
    ensures
        before.insert(job.job_id@, job).contains_key(job.job_id@),
        before.insert(job.job_id@, job)[job.job_id@] == job,
        forall|k: Seq<char>| k != job.job_id@ ==> (#[trigger] before.insert(job.job_id@, job).contains_key(k)
            <==> before.contains_key(k)),
        forall|k: Seq<char>| k != job.job_id@ && before.contains_key(k) ==> #[trigger] before.insert(job.job_id@, job)[k] == before[k],
{
}

/// After a job is removed its id is unknown, and every other job is as it
/// was.
pub proof fn lemma_get_after_remove(before: Map<Seq<char>, CompressionJob>, job_id: Seq<char>)
    ensures
        !before.remove(job_id).contains_key(job_id),
        forall|k: Seq<char>| k != job_id ==> (#[trigger] before.remove(job_id).contains_key(k) <==> before.contains_key(k)),
        forall|k: Seq<char>| k != job_id && before.contains_key(k) ==> #[trigger] before.remove(job_id)[k] == before[k],
{
}

/// Removing a job that was just stored under a fresh id gives back the
/// registry as it was.
pub proof fn lemma_remove_undoes_add(before: Map<Seq<char>, CompressionJob>, job: CompressionJob)
    requires
        !before.contains_key(job.job_id@),
    ensures
        before.insert(job.job_id@, job).remove(job.job_id@) == before,
{
    assert(before.insert(job.job_id@, job).remove(job.job_id@) =~= before);
}

proof fn lemma_registry_update(s: Seq<CompressionJob>, t: Seq<CompressionJob>, i: int)
    requires
        0 <= i < s.len(),
        t.len() == s.len(),
        t[i].job_id@ == s[i].job_id@,
        forall|j: int| 0 <= j < s.len() && j != i ==> t[j] == s[j],
        distinct_ids(s),
        distinct_ids(t),
    ensures
        jobs_view(t) == jobs_view(s).insert(s[i].job_id@, t[i]),
{
    let k = s[i].job_id@;
    lemma_job_for(t, i);
    assert forall|k2: Seq<char>| has_job(t, k2) <==> (has_job(s, k2) || k2 == k) by {
        if has_job(t, k2) {
            let j = choose|j: int| 0 <= j < t.len() && #[trigger] t[j].job_id@ == k2;
            if j != i {
                assert(s[j].job_id@ == k2);
            }
        }
        if has_job(s, k2) {
            let j = choose|j: int| 0 <= j < s.len() && #[trigger] s[j].job_id@ == k2;
            if j != i {
                assert(t[j].job_id@ == k2);
            } else {
                assert(t[i].job_id@ == k2);
            }
        }
    }
    assert forall|k2: Seq<char>| has_job(t, k2) && k2 != k implies job_for(t, k2) == job_for(s, k2) by {
        let j = choose|j: int| 0 <= j < t.len() && #[trigger] t[j].job_id@ == k2;
        assert(j != i);
        lemma_job_for(t, j);
        lemma_job_for(s, j);
    }
    assert(jobs_view(t) =~= jobs_view(s).insert(k, t[i]));
}

proof fn lemma_registry_push(s: Seq<CompressionJob>, job: CompressionJob)
    requires
        distinct_ids(s),
        distinct_ids(s.push(job)),
    ensures
        jobs_view(s.push(job)) == jobs_view(s).insert(job.job_id@, job),
{
    let t = s.push(job);
    let k = job.job_id@;
    lemma_job_for(t, s.len() as int);
    assert forall|k2: Seq<char>| has_job(t, k2) <==> (has_job(s, k2) || k2 == k) by {
        if has_job(t, k2) {
            let j = choose|j: int| 0 <= j < t.len() && #[trigger] t[j].job_id@ == k2;
            if j < s.len() {
                assert(s[j].job_id@ == k2);
            }
        }
        if has_job(s, k2) {
            let j = choose|j: int| 0 <= j < s.len() && #[trigger] s[j].job_id@ == k2;
            assert(t[j].job_id@ == k2);
        }
        if k2 == k {
            assert(t[s.len() as int].job_id@ == k2);
        }
    }
    assert forall|k2: Seq<char>| has_job(t, k2) && k2 != k implies job_for(t, k2) == job_for(s, k2) by {
        let j = choose|j: int| 0 <= j < t.len() && #[trigger] t[j].job_id@ == k2;
        assert(j < s.len());
        lemma_job_for(t, j);
        assert(t[j] == s[j]);
        lemma_job_for(s, j);
    }
    assert(jobs_view(t) =~= jobs_view(s).insert(k, job));
}

proof fn lemma_registry_remove(s: Seq<CompressionJob>, t: Seq<CompressionJob>, i: int)
    requires
        0 <= i < s.len(),
        t == s.remove(i),
        distinct_ids(s),
        distinct_ids(t),
    ensures
        jobs_view(t) == jobs_view(s).remove(s[i].job_id@),
{
    let k = s[i].job_id@;
    assert forall|k2: Seq<char>| has_job(t, k2) <==> (has_job(s, k2) && k2 != k) by {
        if has_job(t, k2) {
            let j = choose|j: int| 0 <= j < t.len() && #[trigger] t[j].job_id@ == k2;
            let j2 = if j < i { j } else { j + 1 };
            assert(s[j2] == t[j]);
            assert(s[j2].job_id@ == k2);
            assert(s[i].job_id@ != s[j2].job_id@);
        }
        if has_job(s, k2) && k2 != k {
            let j = choose|j: int| 0 <= j < s.len() && #[trigger] s[j].job_id@ == k2;
            assert(j != i);
            let j2 = if j < i { j } else { j - 1 };
            assert(t[j2] == s[j]);
            assert(t[j2].job_id@ == k2);
        }
    }
    assert forall|k2: Seq<char>| has_job(t, k2) implies job_for(t, k2) == job_for(s, k2) by {
        let j = choose|j: int| 0 <= j < t.len() && #[trigger] t[j].job_id@ == k2;
        let j2 = if j < i { j } else { j + 1 };
        assert(s[j2] == t[j]);
        lemma_job_for(t, j);
        lemma_job_for(s, j2);
    }
    assert(jobs_view(t) =~= jobs_view(s).remove(k));
}

} // verus!
