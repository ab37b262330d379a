use r2nova::error::AppError;
use r2nova::listing::{delete_batch_outcome, next_listing_page, preview_is_full};
use r2nova::paths::{unique_dest_among};
use r2nova::runs::{
    download_step, legacy_upload_step, multipart_step, new_download_run, new_legacy_upload, new_multipart_run,
    DownloadAction, DownloadEvent, DownloadPhase, LegacyAction, LegacyEvent, PartAction, PartEvent,
};
use r2nova::transfer::JobControl;

const MIB: u64 = 1024 * 1024;

#[test]
fn multipart_run_sends_each_part_once_and_completes_in_order() {
    let size = 20 * MIB;
    let mut run = new_multipart_run(size, 8 * MIB, vec![(2, "e2".into())], 8 * MIB);
    let mut sent = Vec::new();
    loop {
        let (next, action) = multipart_step(run, PartEvent::Tick(JobControl::Run));
        run = next;
        match action {
            PartAction::Send { part, start, end } => sent.push((part, start, end)),
            PartAction::Wait => {
                let part = run.in_flight[run.in_flight.len() - 1];
                let (next, action) =
                    multipart_step(run, PartEvent::PartDone { part, etag: format!("e{part}"), now_ms: 0 });
                run = next;
                assert!(matches!(action, PartAction::Record { .. }));
            }
            PartAction::Complete(parts) => {
                let numbers: Vec<i32> = parts.iter().map(|p| p.0).collect();
                assert_eq!(numbers, vec![1, 2, 3]);
                assert_eq!(parts[2].1, "e3");
                break;
            }
            _ => panic!("unexpected step"),
        }
    }
    assert_eq!(sent, vec![(1, 0, 8 * MIB), (3, 16 * MIB, 20 * MIB)]);
    assert_eq!(run.bytes_done, size);
}

#[test]
fn multipart_run_drains_before_pausing_and_cancelling() {
    let mut run = new_multipart_run(40 * MIB, 8 * MIB, Vec::new(), 0);
    for _ in 0..2 {
        let (next, action) = multipart_step(run, PartEvent::Tick(JobControl::Run));
        run = next;
        assert!(matches!(action, PartAction::Send { .. }));
    }
    let (next, action) = multipart_step(run, PartEvent::Tick(JobControl::Pause));
    run = next;
    assert!(matches!(action, PartAction::Wait));
    let (next, action) = multipart_step(run, PartEvent::PartDone { part: 1, etag: "a".into(), now_ms: 500 });
    run = next;
    assert!(matches!(action, PartAction::Record { progress: Some(p), .. } if p == 8 * MIB));
    let (next, action) = multipart_step(run, PartEvent::PartDone { part: 2, etag: "b".into(), now_ms: 600 });
    run = next;
    assert!(matches!(action, PartAction::Record { progress: None, .. }));
    let (next, action) = multipart_step(run, PartEvent::Tick(JobControl::Pause));
    run = next;
    assert!(matches!(action, PartAction::Pause { bytes_done } if bytes_done == 16 * MIB));
    let (next, action) = multipart_step(run, PartEvent::Tick(JobControl::Run));
    run = next;
    assert!(matches!(action, PartAction::Resume { .. }));
    let (next, action) = multipart_step(run, PartEvent::Tick(JobControl::Run));
    run = next;
    assert!(matches!(action, PartAction::Send { part: 3, .. }));
    let (next, action) = multipart_step(run, PartEvent::Tick(JobControl::Cancel));
    run = next;
    assert!(matches!(action, PartAction::Wait));
    let (next, _) = multipart_step(run, PartEvent::PartFailed { part: 3, error: AppError::Other("x".into()) });
    run = next;
    let (_, action) = multipart_step(run, PartEvent::Tick(JobControl::Cancel));
    assert!(matches!(action, PartAction::Cancelled));
}

#[test]
fn multipart_run_fails_with_the_first_error() {
    let mut run = new_multipart_run(10 * MIB, 8 * MIB, Vec::new(), 0);
    let (next, _) = multipart_step(run, PartEvent::Tick(JobControl::Run));
    run = next;
    let (next, _) = multipart_step(run, PartEvent::Tick(JobControl::Run));
    run = next;
    let (next, _) = multipart_step(run, PartEvent::PartFailed { part: 2, error: AppError::Other("first".into()) });
    run = next;
    let (next, _) = multipart_step(run, PartEvent::PartFailed { part: 1, error: AppError::Other("second".into()) });
    run = next;
    let (_, action) = multipart_step(run, PartEvent::Tick(JobControl::Run));
    match action {
        PartAction::Failed(AppError::Other(m)) => assert_eq!(m, "first"),
        _ => panic!("expected a failure"),
    }
}

#[test]
fn download_run_resumes_with_a_range() {
    let run = new_download_run(0);
    let (run, action) = download_step(run, DownloadEvent::Ready { control: JobControl::Run, file_len: 512 });
    match action {
        DownloadAction::Request { range } => assert_eq!(range.as_deref(), Some("bytes=512-")),
        _ => panic!("expected a request"),
    }
    let (run, action) = download_step(
        run,
        DownloadEvent::Answered { content_range: Some("bytes 512-1023/1024".into()), content_length: 512, now_ms: 0 },
    );
    assert!(matches!(action, DownloadAction::Open { offset: 512, total: 1024, create: false }));
    let (run, action) = download_step(run, DownloadEvent::Poll(JobControl::Run));
    assert!(matches!(action, DownloadAction::Read));
    let (run, action) = download_step(run, DownloadEvent::Wrote { n: 100, now_ms: 10 });
    assert!(matches!(action, DownloadAction::Continue));
    let (run, action) = download_step(run, DownloadEvent::Wrote { n: 100, now_ms: 250 });
    assert!(matches!(action, DownloadAction::Progress { done: 712, total: 1024 }));
    let (run, action) = download_step(run, DownloadEvent::Poll(JobControl::Run));
    assert!(matches!(action, DownloadAction::Read));
    let (run, action) = download_step(run, DownloadEvent::Wrote { n: 100, now_ms: 449 });
    assert!(matches!(action, DownloadAction::Continue));
    let (run, action) = download_step(run, DownloadEvent::Poll(JobControl::Run));
    assert!(matches!(action, DownloadAction::Read));
    let (run, action) = download_step(run, DownloadEvent::Wrote { n: 100, now_ms: 450 });
    assert!(matches!(action, DownloadAction::Progress { done: 912, total: 1024 }));
    assert_eq!(run.last_report_ms, 450);
    let (run, action) = download_step(run, DownloadEvent::Poll(JobControl::Pause));
    assert!(matches!(action, DownloadAction::Paused { done: 912 }));
    assert_eq!(run.phase, DownloadPhase::Ready);
    let (_, action) = download_step(run, DownloadEvent::Ready { control: JobControl::Run, file_len: 1024 });
    assert!(matches!(action, DownloadAction::Done));
}

#[test]
fn download_from_zero_creates_the_file() {
    let (run, action) = download_step(new_download_run(10), DownloadEvent::Ready { control: JobControl::Run, file_len: 0 });
    match action {
        DownloadAction::Request { range } => assert!(range.is_none()),
        _ => panic!("expected a request"),
    }
    let (run, action) = download_step(run, DownloadEvent::Answered { content_range: None, content_length: 10, now_ms: 0 });
    assert!(matches!(action, DownloadAction::Open { offset: 0, total: 10, create: true }));
    let (_, action) = download_step(run, DownloadEvent::Poll(JobControl::Cancel));
    assert!(matches!(action, DownloadAction::Cancelled));
}

#[test]
fn legacy_upload_sends_equal_parts_and_aborts_on_failure() {
    let chunk = 8 * MIB as usize;
    let s = new_legacy_upload(chunk);
    let (s, action) = legacy_upload_step(s, LegacyEvent::Read(3 * MIB as usize));
    assert!(matches!(action, LegacyAction::ReadMore));
    let (s, action) = legacy_upload_step(s, LegacyEvent::Read(3 * MIB as usize));
    assert!(matches!(action, LegacyAction::ReadMore));
    let (s, action) = legacy_upload_step(s, LegacyEvent::Read(3 * MIB as usize));
    assert!(matches!(action, LegacyAction::Send { part_number: 1, len } if len == chunk));
    let (s, action) = legacy_upload_step(s, LegacyEvent::PartSent);
    assert!(matches!(action, LegacyAction::Report { uploaded } if uploaded == 8 * MIB as i64));
    assert_eq!(s.buffered, MIB as usize);
    let (s, action) = legacy_upload_step(s, LegacyEvent::Next);
    assert!(matches!(action, LegacyAction::ReadMore));
    let (s, action) = legacy_upload_step(s, LegacyEvent::Read(10));
    assert!(matches!(action, LegacyAction::ReadMore));
    let (s, action) = legacy_upload_step(s, LegacyEvent::Read(0));
    assert!(matches!(action, LegacyAction::Send { part_number: 2, len } if len == MIB as usize + 10));
    let (_, action) = legacy_upload_step(s, LegacyEvent::PartFailed("boom".into()));
    match action {
        LegacyAction::AbortWith(AppError::S3Error(m)) => assert_eq!(m, "上传最后一个分片 2 失败: boom"),
        _ => panic!("expected an abort"),
    }
}

#[test]
fn legacy_upload_cuts_big_reads_into_equal_parts() {
    let s = new_legacy_upload(4);
    let (s, action) = legacy_upload_step(s, LegacyEvent::Read(9));
    assert!(matches!(action, LegacyAction::Send { part_number: 1, len: 4 }));
    let (s, _) = legacy_upload_step(s, LegacyEvent::PartSent);
    let (s, action) = legacy_upload_step(s, LegacyEvent::Next);
    assert!(matches!(action, LegacyAction::Send { part_number: 2, len: 4 }));
    let (s, action) = legacy_upload_step(s, LegacyEvent::PartSent);
    assert!(matches!(action, LegacyAction::Report { uploaded: 8 }));
    let (s, action) = legacy_upload_step(s, LegacyEvent::Next);
    assert!(matches!(action, LegacyAction::ReadMore));
    let (s, action) = legacy_upload_step(s, LegacyEvent::Read(0));
    assert!(matches!(action, LegacyAction::Send { part_number: 3, len: 1 }));
    let (s, action) = legacy_upload_step(s, LegacyEvent::PartSent);
    assert!(matches!(action, LegacyAction::Report { uploaded: 9 }));
    let (_, action) = legacy_upload_step(s, LegacyEvent::Next);
    assert!(matches!(action, LegacyAction::Complete));
}

#[test]
fn legacy_upload_of_a_whole_number_of_parts_completes() {
    let s = new_legacy_upload(4);
    let (s, action) = legacy_upload_step(s, LegacyEvent::Read(4));
    assert!(matches!(action, LegacyAction::Send { part_number: 1, len: 4 }));
    let (s, _) = legacy_upload_step(s, LegacyEvent::PartSent);
    let (s, action) = legacy_upload_step(s, LegacyEvent::Next);
    assert!(matches!(action, LegacyAction::ReadMore));
    let (_, action) = legacy_upload_step(s, LegacyEvent::Read(0));
    assert!(matches!(action, LegacyAction::Complete));
}

#[test]
fn legacy_upload_of_nothing_puts_an_empty_object() {
    let (_, action) = legacy_upload_step(new_legacy_upload(8 * MIB as usize), LegacyEvent::Read(0));
    assert!(matches!(action, LegacyAction::AbortAndPutEmpty));
    let (_, action) = legacy_upload_step(
        new_legacy_upload(8 * MIB as usize),
        LegacyEvent::CompleteFailed { text: "t".into(), details: "d".into() },
    );
    match action {
        LegacyAction::AbortWith(AppError::S3Error(m)) => assert_eq!(m, "Failed to complete multipart upload: t (Details: d)"),
        _ => panic!("expected an abort"),
    }
}

#[test]
fn delete_batches_report_and_fail() {
    let o = delete_batch_outcome(1000, 500, 0);
    assert_eq!(o.deleted, 1500);
    assert!(o.report);
    assert!(o.result.is_ok());
    let o = delete_batch_outcome(1000, 0, 3);
    assert!(!o.report);
    match o.result {
        Err(AppError::S3Error(m)) => assert_eq!(m, "Failed to delete 3 objects"),
        _ => panic!("expected a failure"),
    }
}

#[test]
fn taken_paths_compare_by_components() {
    let taken = vec!["/d//logo.svg".to_string()];
    assert_eq!(unique_dest_among("/d/logo.svg", &taken, &Vec::new()), "/d/logo (1).svg");
}

#[test]
fn listing_pages_follow_the_token_until_stopped() {
    assert_eq!(next_listing_page(false, Some("tok".into())), Some("tok".to_string()));
    assert_eq!(next_listing_page(false, None), None);
    assert_eq!(next_listing_page(true, Some("tok".into())), None);
}

#[test]
fn preview_is_full_when_more_or_enough() {
    assert!(preview_is_full(true, 0, 10));
    assert!(preview_is_full(false, 10, 10));
    assert!(!preview_is_full(false, 9, 10));
}
