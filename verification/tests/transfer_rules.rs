use r2nova::engine::{RunStart, SlotAttempt, TransferEngine};
use r2nova::error::AppError;
use r2nova::multipart::{part_count, part_range, part_size, should_multipart, DEFAULT_PART_SIZE};
use r2nova::transfer::{
    can_dismiss, clamp_job_limit, download_offset, next_part, park_orphans, progress_due, range_header,
    resume_bytes, resume_check, resume_matches, resume_safe, sort_parts, started_event, total_from_range, JobControl,
    ResumeState, RunEnd, TransferDirection, TransferEvent, TransferProgress, TransferStatus,
};

fn job(id: &str, key: &str, direction: TransferDirection, status: TransferStatus, pausable: bool) -> TransferProgress {
    TransferProgress {
        transfer_id: id.into(),
        key: key.into(),
        direction,
        bytes_done: 1,
        bytes_total: 1,
        status,
        error: None,
        profile_id: "p".into(),
        bucket: "b".into(),
        path: String::new(),
        pausable,
    }
}

#[test]
fn multipart_parts_cover_file_exactly() {
    let size = 25 * 1024 * 1024 + 3;
    let chunk = part_size(size);
    let n = part_count(size, chunk);
    let mut covered = 0u64;
    for i in 1..=n {
        let (s, e) = part_range(size, chunk, i);
        covered += e - s;
    }
    assert_eq!(covered, size);
}

#[test]
fn equal_parts_except_the_last() {
    let size = 3 * DEFAULT_PART_SIZE + 10;
    let chunk = part_size(size);
    assert_eq!(chunk, DEFAULT_PART_SIZE);
    assert_eq!(part_count(size, chunk), 4);
    assert_eq!(part_range(size, chunk, 1), (0, DEFAULT_PART_SIZE));
    assert_eq!(part_range(size, chunk, 4), (3 * DEFAULT_PART_SIZE, size));
    assert_eq!(part_range(size, chunk, 9), (size, size));
}

#[test]
fn huge_files_get_larger_parts() {
    let size = 200 * 1024 * 1024 * 1024u64;
    let chunk = part_size(size);
    assert_eq!(chunk, 21 * 1024 * 1024);
    assert!(part_count(size, chunk) <= 10000);
}

#[test]
fn multipart_threshold() {
    assert!(!should_multipart(DEFAULT_PART_SIZE - 1));
    assert!(should_multipart(DEFAULT_PART_SIZE));
}

#[test]
fn range_header_skips_zero() {
    assert_eq!(range_header(0), None);
    assert_eq!(range_header(512), Some("bytes=512-".into()));
}

#[test]
fn total_from_content_range() {
    assert_eq!(total_from_range(Some("bytes 10-19/50"), 10, 10), 50);
    assert_eq!(total_from_range(None, 10, 5), 15);
}

#[test]
fn total_from_unknown_or_bad_range_falls_back() {
    assert_eq!(total_from_range(Some("bytes 10-19/*"), 10, 10), 20);
    assert_eq!(total_from_range(Some("bytes 10-19/x1"), 10, 10), 20);
    assert_eq!(total_from_range(Some("bytes 10-19"), 10, 10), 20);
    assert_eq!(total_from_range(Some("a/b/+77"), 1, 1), 77);
    assert_eq!(total_from_range(None, 5, u64::MAX), u64::MAX);
    assert_eq!(total_from_range(Some("bytes 0-0/99999999999999999999"), 3, 4), 7);
}

#[test]
fn resume_rejects_size_mismatch() {
    let resume = ResumeState {
        transfer_id: "t".into(),
        bucket: "b".into(),
        key: "k".into(),
        path: "/nope".into(),
        size: 10,
        chunk: 8,
        upload_id: "u".into(),
        completed: vec![],
    };
    assert!(!resume_matches(&resume, "/nope", 11, std::path::Path::new("/nope").is_file()));
}

#[test]
fn resume_matches_same_file() {
    let resume = ResumeState {
        transfer_id: "t".into(),
        bucket: "b".into(),
        key: "k".into(),
        path: "/data/a.bin".into(),
        size: 10,
        chunk: 8,
        upload_id: "u".into(),
        completed: vec![(2, "e2".into()), (1, "e1".into())],
    };
    assert!(resume_matches(&resume, "/data/a.bin", 10, true));
    assert!(!resume_matches(&resume, "/data/a.bin", 10, false));
    assert!(!resume_matches(&resume, "/data/b.bin", 10, true));
    assert_eq!(resume_bytes(&resume), 10);
}

#[test]
fn job_limit_clamps_to_1_16() {
    assert_eq!(clamp_job_limit(0), 1);
    assert_eq!(clamp_job_limit(5), 5);
    assert_eq!(clamp_job_limit(16), 16);
    assert_eq!(clamp_job_limit(99), 16);
}

#[test]
fn resume_sidecar_names_are_safe() {
    assert_eq!(resume_safe("my-bucket", "photos/a b.jpg"), "my-bucket_photos_a_b.jpg");
}

#[test]
fn dismiss_rules() {
    assert!(can_dismiss(&job("a", "k", TransferDirection::Upload, TransferStatus::Completed, true)));
    assert!(can_dismiss(&job("a", "k", TransferDirection::Upload, TransferStatus::Cancelled, true)));
    assert!(can_dismiss(&job("a", "k", TransferDirection::Upload, TransferStatus::Failed, false)));
    assert!(!can_dismiss(&job("a", "k", TransferDirection::Upload, TransferStatus::Failed, true)));
    assert!(!can_dismiss(&job("a", "k", TransferDirection::Upload, TransferStatus::Running, false)));
}

#[test]
fn park_orphans_marks_running_paused() {
    let mut t1 = job("t1", "a", TransferDirection::Download, TransferStatus::Running, true);
    t1.bytes_done = 4;
    t1.bytes_total = 10;
    let mut t2 = job("t2", "b", TransferDirection::Upload, TransferStatus::Completed, false);
    t2.bytes_done = 1;
    t2.bytes_total = 2;
    let mut jobs = vec![t1, t2];
    assert!(park_orphans(&mut jobs, &vec![0, 0], &vec![None, None]));
    assert_eq!(jobs[0].status, TransferStatus::Paused);
    assert_eq!(jobs[1].status, TransferStatus::Completed);
}

#[test]
fn parked_download_takes_length_from_disk() {
    let mut t = job("t1", "a", TransferDirection::Download, TransferStatus::Running, true);
    t.path = "/tmp/a.bin".into();
    t.bytes_total = 10;
    let mut jobs = vec![t];
    assert!(park_orphans(&mut jobs, &vec![25], &vec![None]));
    assert_eq!(jobs[0].bytes_done, 10);
    let mut u = job("t2", "b", TransferDirection::Upload, TransferStatus::Running, true);
    u.bytes_done = 0;
    let mut jobs = vec![u];
    assert!(park_orphans(&mut jobs, &vec![0], &vec![Some(16)]));
    assert_eq!(jobs[0].bytes_done, 16);
    let mut done = vec![job("t3", "c", TransferDirection::Upload, TransferStatus::Paused, true)];
    assert!(!park_orphans(&mut done, &vec![0], &vec![Some(5)]));
    assert_eq!(done[0].bytes_done, 1);
}

#[test]
fn next_part_skips_finished_parts() {
    let done = vec![1, 2, 4];
    assert_eq!(next_part(1, 5, &done), 3);
    assert_eq!(next_part(4, 5, &done), 5);
    assert_eq!(next_part(5, 4, &done), 5);
}

#[test]
fn parts_sorted_for_completion() {
    let sorted = sort_parts(vec![(3, "c".into()), (1, "a".into()), (2, "b".into())]);
    let numbers: Vec<i32> = sorted.iter().map(|p| p.0).collect();
    assert_eq!(numbers, vec![1, 2, 3]);
    assert_eq!(sorted[0].1, "a");
}

#[test]
fn download_offset_caps_at_total() {
    assert_eq!(download_offset(30, true, 20), 20);
    assert_eq!(download_offset(10, true, 20), 10);
    assert_eq!(download_offset(30, false, 20), 30);
}

#[test]
fn progress_is_throttled() {
    assert!(!progress_due(100, 5, 10));
    assert!(progress_due(200, 5, 10));
    assert!(progress_due(0, 10, 10));
}

#[test]
fn resume_check_reasons() {
    assert!(matches!(resume_check(None), Err(AppError::NotFound(m)) if m == "transfer not found"));
    let running = job("t", "k", TransferDirection::Upload, TransferStatus::Running, true);
    assert!(matches!(resume_check(Some(running)), Err(AppError::Other(m)) if m == "transfer is not resumable"));
    let mut orphan = job("t", "k", TransferDirection::Upload, TransferStatus::Paused, true);
    orphan.bucket = String::new();
    assert!(matches!(resume_check(Some(orphan)), Err(AppError::Other(m)) if m == "transfer is missing profile or bucket"));
    let paused = job("t", "k", TransferDirection::Upload, TransferStatus::Paused, true);
    assert!(resume_check(Some(paused)).is_ok());
}

#[test]
fn dismiss_drops_finished_from_saved_queue() {
    let mut engine = TransferEngine::new("/tmp/q".into(), Vec::new());
    engine.upsert(job("done", "a.bin", TransferDirection::Download, TransferStatus::Completed, false));
    engine.upsert(job("live", "a.bin", TransferDirection::Download, TransferStatus::Running, true));
    assert_eq!(engine.list().len(), 2);
    assert!(engine.dismiss("done").is_ok());
    let ids: Vec<String> = engine.list().into_iter().map(|j| j.transfer_id).collect();
    assert_eq!(ids, vec!["live".to_string()]);
    assert!(engine.dismiss("live").is_err());
    assert!(engine.dismiss("nobody").is_ok());
    assert_eq!(engine.list().len(), 1);
}

#[test]
fn enqueue_download_lists_queued_jobs() {
    let mut engine = TransferEngine::new("/tmp/q".into(), Vec::new());
    engine.enqueue_download("p", "bucket", "a.bin", "/dl/a.bin", 10, 0, None);
    engine.enqueue_download("p", "bucket", "b.bin", "/dl/b.bin", 20, 0, None);
    let mut list = engine.list();
    list.sort_by(|x, y| x.key.cmp(&y.key));
    assert_eq!(list.len(), 2);
    assert!(list.iter().all(|j| j.status == TransferStatus::Queued));
    assert_eq!(list[0].bytes_total, 10);
    assert_eq!(list[1].bytes_total, 20);
}

#[test]
fn get_after_upsert_reads_back() {
    let mut engine = TransferEngine::new("/tmp/q".into(), vec![job("a", "k", TransferDirection::Upload, TransferStatus::Queued, false)]);
    let mut j = job("a", "k2", TransferDirection::Upload, TransferStatus::Running, false);
    j.bytes_done = 7;
    engine.upsert(j);
    let got = engine.get("a").unwrap();
    assert_eq!(got.key, "k2");
    assert_eq!(got.bytes_done, 7);
    assert_eq!(engine.list().len(), 1);
    assert!(engine.get("b").is_none());
}

#[test]
fn controls_pause_resume_cancel() {
    let mut engine = TransferEngine::new("/tmp/q".into(), vec![job("a", "k", TransferDirection::Download, TransferStatus::Queued, true)]);
    assert_eq!(engine.control("a"), JobControl::Run);
    engine.pause("a");
    assert_eq!(engine.control("a"), JobControl::Pause);
    assert!(!engine.resume_signal("a"));
    assert_eq!(engine.control("a"), JobControl::Run);
    engine.add_pending("a");
    assert!(engine.resume_signal("a"));
    let before = engine.cancel("a").unwrap();
    assert_eq!(before.status, TransferStatus::Queued);
    assert!(engine.is_cancelled("a"));
    assert_eq!(engine.get("a").unwrap().status, TransferStatus::Cancelled);
    assert_eq!(engine.try_acquire_slot("a"), SlotAttempt::Cancelled);
}

#[test]
fn slots_respect_the_cap() {
    let mut engine = TransferEngine::new("/tmp/q".into(), Vec::new());
    engine.set_job_limit(0);
    assert_eq!(engine.try_acquire_slot("x"), SlotAttempt::Acquired);
    assert_eq!(engine.try_acquire_slot("y"), SlotAttempt::Wait);
    engine.release_slot();
    assert_eq!(engine.try_acquire_slot("y"), SlotAttempt::Acquired);
}

#[test]
fn runs_skip_missing_and_finished_jobs() {
    let mut engine = TransferEngine::new(
        "/tmp/q".into(),
        vec![
            job("done", "k", TransferDirection::Upload, TransferStatus::Completed, false),
            job("go", "k", TransferDirection::Upload, TransferStatus::Queued, false),
        ],
    );
    assert!(matches!(engine.begin_run("nope"), RunStart::Missing));
    assert!(matches!(engine.begin_run("done"), RunStart::Skip));
    assert!(matches!(engine.begin_run("go"), RunStart::Go(j) if j.transfer_id == "go"));
}

#[test]
fn upload_outcomes_update_the_record() {
    let mut engine = TransferEngine::new("/tmp/q".into(), Vec::new());
    let queued = engine.enqueue_upload("p", "b", "k", "/x/file.bin", 100, None, false, None);
    assert_eq!(queued.transfer_id.len(), 36);
    assert!(!queued.pausable);
    let running = engine.start_upload(&queued);
    assert_eq!(engine.get(&queued.transfer_id).unwrap().status, TransferStatus::Running);
    engine.finish_run(&queued.transfer_id);
    let (event, result) = engine.conclude_upload(&running, 100, Ok(RunEnd::Done), None);
    assert!(matches!(event, TransferEvent::Finished { .. }));
    assert_eq!(result.unwrap(), queued.transfer_id);
    let rec = engine.get(&queued.transfer_id).unwrap();
    assert_eq!(rec.status, TransferStatus::Completed);
    assert_eq!(rec.bytes_done, 100);
    let (event, result) = engine.conclude_upload(&running, 100, Err(AppError::Io("disk".into())), Some(40));
    assert!(matches!(event, TransferEvent::Failed { message, .. } if message == "IO 错误: disk"));
    assert!(result.is_err());
    let rec = engine.get(&queued.transfer_id).unwrap();
    assert_eq!(rec.status, TransferStatus::Failed);
    assert_eq!(rec.bytes_done, 40);
}

#[test]
fn enqueue_upload_resumes_matching_sidecar() {
    let mut engine = TransferEngine::new("/tmp/q".into(), Vec::new());
    let resume = ResumeState {
        transfer_id: "old-id".into(),
        bucket: "b".into(),
        key: "k".into(),
        path: "/x/big.bin".into(),
        size: 20_000_000,
        chunk: 8388608,
        upload_id: "u".into(),
        completed: vec![(1, "e".into())],
    };
    let queued = engine.enqueue_upload("p", "b", "k", "/x/big.bin", 20_000_000, Some(resume), true, None);
    assert_eq!(queued.transfer_id, "old-id");
    assert_eq!(queued.bytes_done, 8388608);
    assert!(queued.pausable);
}

#[test]
fn download_outcome_completes_with_total() {
    let mut engine = TransferEngine::new("/tmp/q".into(), Vec::new());
    let queued = engine.enqueue_download("p", "b", "k", "/dl/k", 0, 0, Some("d1".into()));
    assert_eq!(queued.transfer_id, "d1");
    let (event, result) = engine.conclude_download(&queued, true, 64, 64, 64, Ok(RunEnd::Done));
    assert!(matches!(event, TransferEvent::Finished { .. }));
    assert!(result.is_ok());
    let rec = engine.get("d1").unwrap();
    assert_eq!(rec.status, TransferStatus::Completed);
    assert_eq!(rec.bytes_total, 64);
    assert_eq!(rec.bytes_done, 64);
}

#[test]
fn part_sizes_are_whole_mebibytes() {
    assert_eq!(part_size(25 * 1024 * 1024 + 3), 8 * 1024 * 1024);
    assert_eq!(part_size(100 * 1024 * 1024 * 1024), 11 * 1024 * 1024);
}

#[test]
fn started_event_includes_direction() {
    let progress = TransferProgress {
        transfer_id: "t1".into(),
        key: "a.bin".into(),
        direction: TransferDirection::Download,
        bytes_done: 3,
        bytes_total: 10,
        status: TransferStatus::Queued,
        error: None,
        profile_id: "p".into(),
        bucket: "b".into(),
        path: "/tmp/a.bin".into(),
        pausable: true,
    };
    match started_event(&progress) {
        TransferEvent::Started { transfer_id, key, bytes_total, bytes_done, direction, bucket, path, pausable, status } => {
            assert_eq!(transfer_id, "t1");
            assert_eq!(key, "a.bin");
            assert_eq!(bytes_total, 10);
            assert_eq!(bytes_done, 3);
            assert_eq!(direction, TransferDirection::Download);
            assert_eq!(bucket, "b");
            assert_eq!(path, "/tmp/a.bin");
            assert!(pausable);
            assert_eq!(status, TransferStatus::Queued);
        }
        _ => panic!("expected a started event"),
    }
}
