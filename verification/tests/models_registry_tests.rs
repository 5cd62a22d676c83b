use collapse::compression::Algorithm;
use collapse::models::{CompressionJob, JobStatus};
use collapse::registry::InMemoryJobRegistry;

fn make_job() -> CompressionJob {
    CompressionJob::new(
        "abc123".into(),
        "file.txt".into(),
        "file.txt.7z".into(),
        "/tmp/orig.txt".into(),
        "/tmp/out.7z".into(),
        Algorithm::SevenZ,
        3,
    )
}

#[test]
fn new_job_defaults() {
    let job = make_job();
    assert_eq!(job.status, JobStatus::Queued);
    assert!(job.error_message.is_none());
}

#[test]
fn touch_does_not_change_created_at() {
    let mut job = make_job();
    let created = job.created_at;
    job.touch();
    assert_eq!(job.created_at, created);
}

#[test]
fn new_job_created_equals_updated() {
    let job = make_job();
    assert_eq!(job.created_at, job.updated_at);
    assert_eq!(job.job_id, "abc123");
    assert_eq!(job.level, 3);
}

#[test]
fn status_names() {
    assert_eq!(JobStatus::Queued.name(), "queued");
    assert_eq!(JobStatus::Compressing.name(), "compressing");
    assert_eq!(JobStatus::Completed.name(), "completed");
    assert_eq!(JobStatus::Failed.name(), "failed");
    assert!(JobStatus::Queued.in_progress());
    assert!(JobStatus::Compressing.in_progress());
    assert!(!JobStatus::Completed.in_progress());
    assert!(!JobStatus::Failed.in_progress());
}

fn job(id: &str) -> CompressionJob {
    CompressionJob::new(id.into(), "f".into(), "f.zip".into(), "i".into(), "o".into(), Algorithm::Zip, 1)
}

#[test]
fn registry_read_after_write() {
    let mut reg = InMemoryJobRegistry::new();
    assert!(reg.get("a").is_none());
    reg.add(job("a"));
    reg.add(job("b"));
    assert_eq!(reg.get("a").unwrap().job_id, "a");
    assert_eq!(reg.get("b").unwrap().job_id, "b");
    assert_eq!(reg.list_all().len(), 2);
}

#[test]
fn registry_add_replaces_same_id() {
    let mut reg = InMemoryJobRegistry::new();
    reg.add(job("a"));
    let mut second = job("a");
    second.level = 4;
    reg.add(second);
    assert_eq!(reg.list_all().len(), 1);
    assert_eq!(reg.get("a").unwrap().level, 4);
}

#[test]
fn registry_remove() {
    let mut reg = InMemoryJobRegistry::new();
    reg.add(job("a"));
    reg.add(job("b"));
    assert_eq!(reg.remove("a").unwrap().job_id, "a");
    assert!(reg.get("a").is_none());
    assert!(reg.remove("a").is_none());
    assert!(reg.get("b").is_some());
}

#[test]
fn registry_update_status() {
    let mut reg = InMemoryJobRegistry::new();
    assert!(reg.update_status("a", JobStatus::Failed, None).is_none());
    reg.add(job("a"));
    let created = reg.get("a").unwrap().created_at;
    let updated = reg.update_status("a", JobStatus::Failed, Some("boom".into())).unwrap();
    assert_eq!(updated.status, JobStatus::Failed);
    assert_eq!(updated.error_message.as_deref(), Some("boom"));
    assert_eq!(updated.created_at, created);
    let stored = reg.get("a").unwrap();
    assert_eq!(stored.status, JobStatus::Failed);
    assert_eq!(stored.updated_at, updated.updated_at);
}

#[test]
fn new_at_and_touch_at_use_the_given_time() {
    let mut job = CompressionJob::new_at(
        "x".into(), "f".into(), "f.7z".into(), "i".into(), "o".into(), Algorithm::SevenZ, 2, 1_000,
    );
    assert_eq!(job.created_at, 1_000);
    assert_eq!(job.updated_at, 1_000);
    assert_eq!(job.status, JobStatus::Queued);
    job.touch_at(2_500);
    assert_eq!(job.updated_at, 2_500);
    assert_eq!(job.created_at, 1_000);
}

#[test]
fn clock_times_are_nanoseconds_after_2020() {
    let job = make_job();
    // 2020-01-01T00:00:00Z in nanoseconds.
    assert!(job.created_at > 1_577_836_800_000_000_000);
}

#[test]
fn update_status_at_uses_the_given_time() {
    let mut reg = InMemoryJobRegistry::new();
    assert!(reg.update_status_at("a", JobStatus::Completed, None, 7).is_none());
    reg.add(job("a"));
    let created = reg.get("a").unwrap().created_at;
    let updated = reg.update_status_at("a", JobStatus::Completed, None, 42).unwrap();
    assert_eq!(updated.updated_at, 42);
    assert_eq!(updated.created_at, created);
    assert_eq!(reg.get("a").unwrap().updated_at, 42);
    assert_eq!(reg.get("a").unwrap().status, JobStatus::Completed);
}
