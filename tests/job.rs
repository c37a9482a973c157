use zdmr::error::ErrorCode;
use zdmr::job::{
    apply_first_probe, check_final_size, check_response_status, effective_total, mode_after_failure,
    multipart_poll, needs_naming, parse_i64_header, ranged_response_ok, remote_changed_message,
    revalidate, segment_step, should_stop, single_start, supports_ranges_from, terminal_error, Mismatch, MultipartPoll, ProbeInfo, SegmentStep, SingleStart, TransferMode,
};
use zdmr::model::{JobControl, SegmentRowWithId, SegmentStatus};
use zdmr::store::new_download_record;

fn seg(id: i64, start: i64, end: i64, done: i64, status: SegmentStatus) -> SegmentRowWithId {
    SegmentRowWithId { id, range_start: start, range_end: end, bytes_done: done, status, last_error: None }
}

#[test]
fn resume_from_paused_offset_when_ranges_supported() {
    let four = 4 * 1024 * 1024;
    assert_eq!(single_start(four, true), SingleStart { start: four, ranged: true, reset_progress: false });
    assert_eq!(single_start(four, false), SingleStart { start: 0, ranged: false, reset_progress: true });
    assert_eq!(single_start(0, true), SingleStart { start: 0, ranged: false, reset_progress: false });
    assert_eq!(single_start(-3, true), SingleStart { start: 0, ranged: false, reset_progress: false });
}

#[test]
fn etag_change_is_terminal() {
    let a = Some("\"a\"".to_string());
    let b = Some("\"b\"".to_string());
    assert_eq!(revalidate(&a, &b, &None, &None), Some(Mismatch::ETag));
    assert_eq!(revalidate(&a, &a, &None, &None), None);
    assert_eq!(revalidate(&None, &b, &None, &None), None);
    assert_eq!(remote_changed_message(Mismatch::ETag), "Remote changed (ETag mismatch)");
}

#[test]
fn last_modified_change_is_detected() {
    let x = Some("Mon, 01 Jan 2024 00:00:00 GMT".to_string());
    let y = Some("Tue, 02 Jan 2024 00:00:00 GMT".to_string());
    assert_eq!(revalidate(&None, &None, &x, &y), Some(Mismatch::LastModified));
    assert_eq!(revalidate(&None, &None, &x, &None), None);
}

#[test]
fn failover_stops_on_non_retryable() {
    let p = zdmr::job::JobPhase::Probing { idx: 0 };
    for (code, goes_on) in [
        (ErrorCode::Http5xx, true),
        (ErrorCode::Timeout, true),
        (ErrorCode::DnsFail, true),
        (ErrorCode::Http4xx, false),
        (ErrorCode::Unknown, false),
        (ErrorCode::DiskFull, false),
    ] {
        let next = zdmr::job::job_step(p, 3, zdmr::job::JobEvent::ProbeFailed(code));
        assert_eq!(matches!(next, zdmr::job::JobPhase::Next { idx: 1, .. }), goes_on);
    }
}

#[test]
fn downgrade_once_on_range_failure() {
    assert_eq!(mode_after_failure(TransferMode::Multipart, Some(ErrorCode::RangeUnsupported)), Some(TransferMode::Single));
    assert_eq!(mode_after_failure(TransferMode::Single, Some(ErrorCode::RangeUnsupported)), None);
    assert_eq!(mode_after_failure(TransferMode::Multipart, Some(ErrorCode::Http5xx)), None);
}

#[test]
fn multipart_poll_decisions() {
    let running = vec![seg(1, 0, 9, 5, SegmentStatus::Active), seg(2, 10, 19, 10, SegmentStatus::Completed)];
    assert_eq!(multipart_poll(JobControl::Run, &running), MultipartPoll::Continue);
    assert_eq!(multipart_poll(JobControl::Pause, &running), MultipartPoll::Paused);
    assert_eq!(multipart_poll(JobControl::Cancel, &running), MultipartPoll::Paused);
    let failed = vec![seg(1, 0, 9, 5, SegmentStatus::Error), seg(2, 10, 19, 10, SegmentStatus::Completed)];
    assert_eq!(multipart_poll(JobControl::Run, &failed), MultipartPoll::Downgrade);
    let done = vec![seg(1, 0, 9, 10, SegmentStatus::Completed), seg(2, 10, 19, 10, SegmentStatus::Completed)];
    assert_eq!(multipart_poll(JobControl::Run, &done), MultipartPoll::Done);
    assert!(should_stop(JobControl::Pause));
    assert!(!should_stop(JobControl::Run));
}

#[test]
fn segment_step_requests_remaining_range() {
    assert_eq!(segment_step(&seg(1, 100, 199, 40, SegmentStatus::Active)), SegmentStep::Request { from: 140, to: 199 });
    assert_eq!(segment_step(&seg(1, 100, 199, 100, SegmentStatus::Active)), SegmentStep::MarkCompleted);
    assert_eq!(segment_step(&seg(1, 100, 199, 100, SegmentStatus::Completed)), SegmentStep::Skip);
    assert!(ranged_response_ok(206));
    assert!(!ranged_response_ok(200));
}

#[test]
fn response_status_classification() {
    assert_eq!(check_response_status(200), Ok(()));
    assert_eq!(check_response_status(304), Ok(()));
    assert_eq!(check_response_status(404), Err(ErrorCode::Http4xx));
    assert_eq!(check_response_status(503), Err(ErrorCode::Http5xx));
}

#[test]
fn probe_header_reading() {
    assert_eq!(supports_ranges_from(Some("Bytes")), Some(true));
    assert_eq!(supports_ranges_from(Some("none")), Some(false));
    assert_eq!(supports_ranges_from(None), None);
    assert_eq!(parse_i64_header("10485760"), Some(10_485_760));
    assert_eq!(parse_i64_header("+7"), Some(7));
    assert_eq!(parse_i64_header("-5"), Some(-5));
    assert_eq!(parse_i64_header("9223372036854775807"), Some(i64::MAX));
    assert_eq!(parse_i64_header("-9223372036854775808"), Some(i64::MIN));
    assert_eq!(parse_i64_header("9223372036854775808"), None);
    assert_eq!(parse_i64_header("99999999999999999999999"), None);
    assert_eq!(parse_i64_header(""), None);
    assert_eq!(parse_i64_header("-"), None);
    assert_eq!(parse_i64_header("12a"), None);
    assert_eq!(parse_i64_header(" 12"), None);
}

#[test]
fn first_probe_keeps_chosen_name() {
    let mut rec = new_download_record(
        "id1".to_string(),
        "https://h/f.bin".to_string(),
        "/tmp".to_string(),
        false,
        None,
        "t0".to_string(),
    );
    assert!(needs_naming(&rec));
    let probe = || ProbeInfo {
        supports_ranges: Some(true),
        content_length: Some(100),
        etag: Some("e".to_string()),
        last_modified: None,
        content_disposition: None,
        content_type: None,
    };
    apply_first_probe(&mut rec, "https://h/f.bin".to_string(), "f.bin".to_string(), "/tmp/.zdmr-id1.part".to_string(), probe(), None);
    assert_eq!(rec.final_filename.as_deref(), Some("f.bin"));
    assert_eq!(rec.content_length, Some(100));
    assert_eq!(rec.etag.as_deref(), Some("e"));
    assert!(!needs_naming(&rec));
    rec.temp_path = None;
    apply_first_probe(&mut rec, "https://m/f.bin".to_string(), "other.bin".to_string(), "/tmp/.zdmr-id1.part".to_string(), probe(), Some("https://m".to_string()));
    assert_eq!(rec.final_filename.as_deref(), Some("f.bin"));
    assert_eq!(rec.mirror_used.as_deref(), Some("https://m"));
}

#[test]
fn final_size_check_and_terminal_error() {
    assert_eq!(check_final_size(Some(10), 10), Ok(()));
    assert_eq!(check_final_size(Some(10), 9), Err(ErrorCode::Unknown));
    assert_eq!(check_final_size(None, 9), Ok(()));
    assert_eq!(terminal_error(None, None), (ErrorCode::Unknown, "download failed".to_string()));
    assert_eq!(terminal_error(Some(ErrorCode::Http4xx), Some("HTTP 404".to_string())), (ErrorCode::Http4xx, "HTTP 404".to_string()));
    assert_eq!(effective_total(Some(5), Some(9)), Some(5));
    assert_eq!(effective_total(None, Some(9)), Some(9));
}

use zdmr::job::{job_step, JobEvent, JobPhase};

const MIB: i64 = 1024 * 1024;

#[test]
fn job_phases_probe_then_transfer() {
    let start = JobPhase::Next { idx: 0, last: None };
    let p = job_step(start, 2, JobEvent::Control(JobControl::Run));
    assert_eq!(p, JobPhase::Probing { idx: 0 });
    let big = job_step(p, 2, JobEvent::Probed { changed: None, total: Some(128 * MIB), supports_ranges: Some(true) });
    assert_eq!(big, JobPhase::Transferring { idx: 0, mode: TransferMode::Multipart });
    let small = job_step(p, 2, JobEvent::Probed { changed: None, total: Some(10 * MIB), supports_ranges: Some(false) });
    assert_eq!(small, JobPhase::Transferring { idx: 0, mode: TransferMode::Single });
    assert_eq!(job_step(start, 2, JobEvent::Control(JobControl::Pause)), JobPhase::Paused);
}

#[test]
fn job_downgrades_once_then_completes() {
    let ranged = JobPhase::Transferring { idx: 0, mode: TransferMode::Multipart };
    let single = job_step(ranged, 1, JobEvent::TransferFailed(ErrorCode::RangeUnsupported));
    assert_eq!(single, JobPhase::Transferring { idx: 0, mode: TransferMode::Single });
    let again = job_step(single, 1, JobEvent::TransferFailed(ErrorCode::RangeUnsupported));
    assert_eq!(again, JobPhase::Next { idx: 1, last: Some(ErrorCode::RangeUnsupported) });
    assert_eq!(job_step(again, 1, JobEvent::Control(JobControl::Run)), JobPhase::Failed { code: ErrorCode::RangeUnsupported });
    let done = job_step(single, 1, JobEvent::TransferDone { expected: Some(64 * MIB), actual: 64 * MIB as u64 });
    assert_eq!(done, JobPhase::Completed);
    let short = job_step(single, 1, JobEvent::TransferDone { expected: Some(64 * MIB), actual: 5 });
    assert_eq!(short, JobPhase::Failed { code: ErrorCode::Unknown });
}

#[test]
fn job_fails_over_to_mirror_on_retryable_error() {
    let p = JobPhase::Probing { idx: 0 };
    let next = job_step(p, 2, JobEvent::ProbeFailed(ErrorCode::ConnectFail));
    assert_eq!(next, JobPhase::Next { idx: 1, last: Some(ErrorCode::ConnectFail) });
    assert_eq!(job_step(next, 2, JobEvent::Control(JobControl::Run)), JobPhase::Probing { idx: 1 });
    assert_eq!(job_step(p, 2, JobEvent::ProbeFailed(ErrorCode::Http4xx)), JobPhase::Failed { code: ErrorCode::Http4xx });
}

#[test]
fn job_remote_change_is_final() {
    let p = JobPhase::Probing { idx: 0 };
    let failed = job_step(p, 3, JobEvent::Probed { changed: Some(Mismatch::ETag), total: Some(8 * MIB), supports_ranges: Some(true) });
    assert_eq!(failed, JobPhase::Failed { code: ErrorCode::RemoteChanged });
    assert_eq!(job_step(failed, 3, JobEvent::Control(JobControl::Run)), failed);
    assert_eq!(job_step(failed, 3, JobEvent::ProbeFailed(ErrorCode::Timeout)), failed);
}

#[test]
fn job_without_candidates_fails_with_last_code() {
    let p = JobPhase::Next { idx: 0, last: Some(ErrorCode::InvalidUrl) };
    assert_eq!(job_step(p, 0, JobEvent::Control(JobControl::Run)), JobPhase::Failed { code: ErrorCode::InvalidUrl });
    let q = JobPhase::Next { idx: 0, last: None };
    assert_eq!(job_step(q, 0, JobEvent::Control(JobControl::Run)), JobPhase::Failed { code: ErrorCode::Unknown });
}

#[test]
fn segment_take_stops_at_the_range_end() {
    assert_eq!(zdmr::job::segment_take(199, 150, 10), 10);
    assert_eq!(zdmr::job::segment_take(199, 195, 10), 5);
    assert_eq!(zdmr::job::segment_take(199, 200, 10), 0);
    assert_eq!(zdmr::job::segment_take(199, 199, 0), 0);
}
