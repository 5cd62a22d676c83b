use std::io::Read;

use collapse::compression::Algorithm;
use collapse::error::AppError;
use collapse::models::{CompressionJob, JobStatus};
use collapse::queue::{begin_job, finish_job};
use collapse::registry::InMemoryJobRegistry;
use collapse::routes::{
    completed_jobs, delete_completed, delete_job, download_archive, form_field, get_job_status,
    list_jobs, plan_delete, plan_download, prepare_upload, upload_file, FormField, UploadForm,
};
use collapse::storage::FilesystemStorage;

fn storage() -> FilesystemStorage {
    FilesystemStorage::new("dir/input".into(), "dir/output".into())
}

fn make_job(job_id: &str, status: JobStatus) -> CompressionJob {
    CompressionJob {
        job_id: job_id.into(),
        original_filename: "file.txt".into(),
        archive_filename: "file.txt.zip".into(),
        original_path: "dir/input/orig.txt".into(),
        compressed_path: format!("dir/output/{job_id}.zip"),
        algorithm: Algorithm::Zip,
        level: 3,
        status,
        error_message: None,
        created_at: 100,
        updated_at: 100,
    }
}

fn upload(filename: &str, content: &[u8], algorithm: Option<&str>, level: Option<&str>) -> Result<UploadForm, AppError> {
    let mut form = UploadForm::new();
    assert_eq!(form_field("file"), FormField::File);
    form.set_file(Some(filename.to_string()), content.to_vec());
    if let Some(a) = algorithm {
        assert_eq!(form_field("algorithm"), FormField::Algorithm);
        form.set_algorithm(a)?;
    }
    if let Some(l) = level {
        assert_eq!(form_field("level"), FormField::Level);
        form.set_level(l)?;
    }
    Ok(form)
}

fn status_of(e: &AppError) -> u16 {
    e.status_code()
}

#[test]
fn list_empty() {
    let reg = InMemoryJobRegistry::new();
    assert!(list_jobs(&reg).is_empty());
}

#[test]
fn list_returns_jobs_ordered_by_created_at() {
    let mut reg = InMemoryJobRegistry::new();
    let mut j1 = make_job("j1", JobStatus::Completed);
    j1.created_at = 300;
    let mut j2 = make_job("j2", JobStatus::Completed);
    j2.created_at = 100;
    let mut j3 = make_job("j3", JobStatus::Queued);
    j3.created_at = 200;
    reg.add(j1);
    reg.add(j2);
    reg.add(j3);
    let list = list_jobs(&reg);
    assert_eq!(list.len(), 3);
    let ids: Vec<&str> = list.iter().map(|r| r.job_id.as_str()).collect();
    assert_eq!(ids, vec!["j2", "j3", "j1"]);
}

#[test]
fn upload_returns_202() {
    let mut reg = InMemoryJobRegistry::new();
    let form = upload("hello.txt", b"content", Some("zip"), Some("1")).unwrap();
    let prepared = prepare_upload(form, &storage()).unwrap();
    let resp = upload_file(&mut reg, &prepared);
    assert_eq!(resp.filename, "hello.txt");
    assert_eq!(resp.algorithm, Algorithm::Zip);
    assert_eq!(resp.level, 1);
    assert_eq!(resp.status, JobStatus::Queued);
    assert_eq!(resp.archive_name, "hello.txt.zip");
    assert_eq!(prepared.data, b"content".to_vec());
    assert_eq!(resp.job_id.len(), 32);
    assert_eq!(prepared.compressed_path, format!("dir/output/{}.zip", resp.job_id));
    assert!(prepared.original_path.starts_with("dir/input/"));
    assert!(prepared.original_path.ends_with(".txt"));
    assert_eq!(prepared.original_path.len(), "dir/input/".len() + 32 + 4);
    let job = reg.get(&resp.job_id).unwrap();
    assert_eq!(job.status, JobStatus::Queued);
    assert_eq!(job.original_path, prepared.original_path);
}

#[test]
fn upload_default_algorithm_is_7z() {
    let form = upload("f.txt", b"x", None, None).unwrap();
    let prepared = prepare_upload(form, &storage()).unwrap();
    assert_eq!(prepared.algorithm, Algorithm::SevenZ);
    assert_eq!(prepared.level, 5);
}

#[test]
fn upload_empty_filename_returns_400() {
    let form = upload("", b"content", None, None).unwrap();
    let err = prepare_upload(form, &storage()).unwrap_err();
    assert_eq!(status_of(&err), 400);
    assert_eq!(err.detail(), "A file name is required.");
}

#[test]
fn upload_without_file_returns_400() {
    let err = prepare_upload(UploadForm::new(), &storage()).unwrap_err();
    assert_eq!(status_of(&err), 400);
    let mut form = UploadForm::new();
    form.filename = Some("f.txt".into());
    let err = prepare_upload(form, &storage()).unwrap_err();
    assert_eq!(err.detail(), "A file is required.");
}

#[test]
fn upload_level_out_of_range_returns_400() {
    let err = upload("f.txt", b"x", None, Some("6")).unwrap_err();
    assert_eq!(status_of(&err), 400);
    assert_eq!(err.detail(), "Level must be between 1 and 5.");
}

#[test]
fn upload_level_zero_returns_400() {
    let err = upload("f.txt", b"x", None, Some("0")).unwrap_err();
    assert_eq!(status_of(&err), 400);
}

#[test]
fn upload_unreadable_level_means_five() {
    let form = upload("f.txt", b"x", None, Some("abc")).unwrap();
    assert_eq!(form.level, 5);
}

#[test]
fn upload_invalid_algorithm_returns_400() {
    let err = upload("f.txt", b"x", Some("rar"), None).unwrap_err();
    assert_eq!(status_of(&err), 400);
    assert!(err.detail().contains("Unknown algorithm"));
}

#[test]
fn upload_7z_algorithm() {
    let mut reg = InMemoryJobRegistry::new();
    let form = upload("data.bin", b"binary data", Some("7z"), Some("3")).unwrap();
    let prepared = prepare_upload(form, &storage()).unwrap();
    let resp = upload_file(&mut reg, &prepared);
    assert_eq!(resp.algorithm, Algorithm::SevenZ);
    assert_eq!(resp.level, 3);
    assert_eq!(resp.archive_name, "data.bin.7z");
}

#[test]
fn get_status_returns_200() {
    let mut reg = InMemoryJobRegistry::new();
    reg.add(make_job("j1", JobStatus::Queued));
    let resp = get_job_status(&reg, "j1").unwrap();
    assert_eq!(resp.status, JobStatus::Queued);
}

#[test]
fn get_status_missing_returns_404() {
    let reg = InMemoryJobRegistry::new();
    let err = get_job_status(&reg, "ghost").unwrap_err();
    assert_eq!(status_of(&err), 404);
    assert_eq!(err.detail(), "Job not found.");
}

#[test]
fn get_status_returns_all_fields() {
    let mut reg = InMemoryJobRegistry::new();
    reg.add(make_job("j1", JobStatus::Queued));
    let resp = get_job_status(&reg, "j1").unwrap();
    assert_eq!(resp.job_id, "j1");
    assert_eq!(resp.filename, "file.txt");
    assert_eq!(resp.status.name(), "queued");
    assert_eq!(resp.algorithm.to_string(), "zip");
    assert_eq!(resp.level, 3);
    assert_eq!(resp.archive_name, "file.txt.zip");
    assert_eq!(resp.created_at, 100);
    assert_eq!(resp.updated_at, 100);
}

#[test]
fn download_completed_job() {
    let mut reg = InMemoryJobRegistry::new();
    reg.add(make_job("j1", JobStatus::Completed));
    let plan = plan_download(&reg, "j1").unwrap();
    assert_eq!(plan.archive_path, "dir/output/j1.zip");
    assert!(download_archive(plan, true).is_ok());
}

#[test]
fn download_queued_returns_409() {
    let mut reg = InMemoryJobRegistry::new();
    reg.add(make_job("j1", JobStatus::Queued));
    let err = plan_download(&reg, "j1").unwrap_err();
    assert_eq!(status_of(&err), 409);
    assert_eq!(err.detail(), "Compression is still in progress.");
}

#[test]
fn download_compressing_returns_409() {
    let mut reg = InMemoryJobRegistry::new();
    reg.add(make_job("j1", JobStatus::Compressing));
    assert_eq!(status_of(&plan_download(&reg, "j1").unwrap_err()), 409);
}

#[test]
fn download_failed_returns_409() {
    let mut reg = InMemoryJobRegistry::new();
    let mut job = make_job("j1", JobStatus::Failed);
    job.error_message = Some("disk full".into());
    reg.add(job);
    assert_eq!(status_of(&plan_download(&reg, "j1").unwrap_err()), 409);
}

#[test]
fn download_failed_without_message() {
    let mut reg = InMemoryJobRegistry::new();
    reg.add(make_job("j1", JobStatus::Failed));
    assert_eq!(plan_download(&reg, "j1").unwrap_err().detail(), "Compression failed.");
}

#[test]
fn download_missing_archive_returns_404() {
    let mut reg = InMemoryJobRegistry::new();
    let mut job = make_job("j1", JobStatus::Completed);
    job.compressed_path = "/nonexistent/out.zip".into();
    reg.add(job);
    let plan = plan_download(&reg, "j1").unwrap();
    let err = download_archive(plan, false).unwrap_err();
    assert_eq!(status_of(&err), 404);
    assert_eq!(err.detail(), "Archive file not found.");
}

#[test]
fn download_missing_job_returns_404() {
    let reg = InMemoryJobRegistry::new();
    assert_eq!(status_of(&plan_download(&reg, "ghost").unwrap_err()), 404);
}

#[test]
fn download_returns_correct_headers() {
    let mut reg = InMemoryJobRegistry::new();
    reg.add(make_job("j1", JobStatus::Completed));
    let plan = plan_download(&reg, "j1").unwrap();
    assert_eq!(plan.content_type, "application/zip");
    assert!(plan.content_disposition.contains("attachment"));
    assert!(plan.content_disposition.contains("file.txt.zip"));
    assert_eq!(plan.content_disposition, "attachment; filename=\"file.txt.zip\"");
}

#[test]
fn download_failed_returns_error_message() {
    let mut reg = InMemoryJobRegistry::new();
    let mut job = make_job("j1", JobStatus::Failed);
    job.error_message = Some("out of disk".into());
    reg.add(job);
    let err = plan_download(&reg, "j1").unwrap_err();
    assert_eq!(status_of(&err), 409);
    assert_eq!(err.detail(), "out of disk");
}

#[test]
fn delete_completed_job() {
    let mut reg = InMemoryJobRegistry::new();
    reg.add(make_job("j1", JobStatus::Completed));
    let plan = plan_delete(&reg, "j1").unwrap();
    assert_eq!(plan.original_path, "dir/input/orig.txt");
    assert_eq!(plan.compressed_path, "dir/output/j1.zip");
    let resp = delete_job(&mut reg, "j1".into(), true, true);
    assert!(resp.deleted);
    assert_eq!(resp.job_id, "j1");
}

#[test]
fn delete_reports_whether_any_file_was_removed() {
    let mut reg = InMemoryJobRegistry::new();
    reg.add(make_job("j1", JobStatus::Completed));
    reg.add(make_job("j2", JobStatus::Completed));
    assert!(delete_job(&mut reg, "j1".into(), false, true).deleted);
    assert!(!delete_job(&mut reg, "j2".into(), false, false).deleted);
}

#[test]
fn delete_queued_returns_409() {
    let mut reg = InMemoryJobRegistry::new();
    reg.add(make_job("j1", JobStatus::Queued));
    let err = plan_delete(&reg, "j1").unwrap_err();
    assert_eq!(status_of(&err), 409);
    assert_eq!(err.detail(), "Cannot delete files while compression is in progress.");
}

#[test]
fn delete_missing_job_returns_404() {
    let reg = InMemoryJobRegistry::new();
    assert_eq!(status_of(&plan_delete(&reg, "ghost").unwrap_err()), 404);
}

#[test]
fn delete_removes_job_from_registry() {
    let mut reg = InMemoryJobRegistry::new();
    reg.add(make_job("j1", JobStatus::Completed));
    plan_delete(&reg, "j1").unwrap();
    delete_job(&mut reg, "j1".into(), false, false);
    assert!(reg.get("j1").is_none());
}

#[test]
fn delete_failed_job_succeeds() {
    let mut reg = InMemoryJobRegistry::new();
    let mut job = make_job("j1", JobStatus::Failed);
    job.error_message = Some("boom".into());
    reg.add(job);
    assert!(plan_delete(&reg, "j1").is_ok());
}

#[test]
fn delete_compressing_returns_409() {
    let mut reg = InMemoryJobRegistry::new();
    reg.add(make_job("j1", JobStatus::Compressing));
    assert_eq!(status_of(&plan_delete(&reg, "j1").unwrap_err()), 409);
}

#[test]
fn delete_completed_only_deletes_completed() {
    let mut reg = InMemoryJobRegistry::new();
    reg.add(make_job("c1", JobStatus::Completed));
    reg.add(make_job("q1", JobStatus::Queued));
    let completed = completed_jobs(&reg);
    assert_eq!(completed.len(), 1);
    let resp = delete_completed(&mut reg, &completed, &vec![true, true]);
    assert_eq!(resp.deleted_jobs, 1);
    assert!(reg.get("c1").is_none());
    assert!(reg.get("q1").is_some());
}

#[test]
fn delete_completed_empty_when_no_completed() {
    let mut reg = InMemoryJobRegistry::new();
    reg.add(make_job("q1", JobStatus::Queued));
    let completed = completed_jobs(&reg);
    let resp = delete_completed(&mut reg, &completed, &vec![]);
    assert_eq!(resp.deleted_jobs, 0);
}

#[test]
fn delete_completed_counts_deleted_files() {
    let mut reg = InMemoryJobRegistry::new();
    reg.add(make_job("c2", JobStatus::Completed));
    let completed = completed_jobs(&reg);
    let resp = delete_completed(&mut reg, &completed, &vec![true, true]);
    assert_eq!(resp.deleted_files, 2);
    let resp = delete_completed(&mut reg, &vec![], &vec![true, false, false, true, true]);
    assert_eq!(resp.deleted_files, 3);
}

#[test]
fn worker_lifecycle() {
    let mut reg = InMemoryJobRegistry::new();
    reg.add(make_job("j1", JobStatus::Queued));
    assert!(begin_job(&mut reg, "ghost").is_none());
    let task = begin_job(&mut reg, "j1").unwrap();
    assert_eq!(task.source, "dir/input/orig.txt");
    assert_eq!(task.output, "dir/output/j1.zip");
    assert_eq!(task.arcname, "file.txt");
    assert_eq!(task.algorithm, Algorithm::Zip);
    assert_eq!(task.level, 3);
    assert_eq!(reg.get("j1").unwrap().status, JobStatus::Compressing);
    finish_job(&mut reg, "j1", Ok(()));
    assert_eq!(reg.get("j1").unwrap().status, JobStatus::Completed);
    assert!(plan_download(&reg, "j1").is_ok());
}

#[test]
fn worker_failure_is_recorded() {
    let mut reg = InMemoryJobRegistry::new();
    reg.add(make_job("j1", JobStatus::Queued));
    begin_job(&mut reg, "j1").unwrap();
    finish_job(&mut reg, "j1", Err("disk full".into()));
    let job = reg.get("j1").unwrap();
    assert_eq!(job.status, JobStatus::Failed);
    assert_eq!(job.error_message.as_deref(), Some("disk full"));
    assert_eq!(plan_download(&reg, "j1").unwrap_err().detail(), "disk full");
}

#[test]
fn full_roundtrip() {
    let mut reg = InMemoryJobRegistry::new();
    let form = upload("hello.txt", b"Hello, Collapse!", Some("zip"), Some("1")).unwrap();
    let prepared = prepare_upload(form, &storage()).unwrap();
    let resp = upload_file(&mut reg, &prepared);
    let task = begin_job(&mut reg, &resp.job_id).unwrap();
    let outcome = collapse::compression::compress(&prepared.data, &task.arcname, task.algorithm, task.level);
    let archive = outcome.unwrap();
    finish_job(&mut reg, &resp.job_id, Ok(()));
    assert_eq!(reg.get(&resp.job_id).unwrap().status, JobStatus::Completed);
    let plan = plan_download(&reg, &resp.job_id).unwrap();
    let plan = download_archive(plan, true).unwrap();
    assert_eq!(plan.archive_path, prepared.compressed_path);
    let mut ar = zip::ZipArchive::new(std::io::Cursor::new(archive)).unwrap();
    let mut entry = ar.by_name("hello.txt").unwrap();
    let mut content = Vec::new();
    entry.read_to_end(&mut content).unwrap();
    assert_eq!(content, b"Hello, Collapse!");
}

#[test]
fn storage_paths() {
    let s = storage();
    assert_eq!(s.build_output_path("abc", Algorithm::SevenZ), "dir/output/abc.7z");
    assert_eq!(s.input_path_for("tok", "report.pdf"), "dir/input/tok.pdf");
    assert_eq!(s.input_path_for("tok", "noext"), "dir/input/tok");
    assert_eq!(s.input_path_for("tok", "a/b.tar.gz"), "dir/input/tok.gz");
    assert_eq!(s.write_chunk_size(), 1024 * 1024);
    let p = s.build_input_path("x.txt");
    assert!(p.starts_with("dir/input/") && p.ends_with(".txt"));
    let hex = &p["dir/input/".len().."dir/input/".len() + 32];
    assert!(hex.chars().all(|c| c.is_ascii_hexdigit() && !c.is_ascii_uppercase()));
}
