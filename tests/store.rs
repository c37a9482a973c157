use zdmr::bandwidth::BandwidthLimiter;
use zdmr::engine::{plan_command, should_start, EngineAction};
use zdmr::error::{code_for_http_status, code_for_transport_failure, format_code, parse_error_code, ErrorCode};
use zdmr::model::{
    parse_status, status_to_str, DownloadStatus, EngineCommand, JobControl, SegmentRowWithId, SegmentStatus,
};
use zdmr::progress::{progress_sample, SegmentProgress, SpeedSample};
use zdmr::store::{new_download_record, recover_incomplete, reset_for_retry, update_status};
use zdmr::update::{pick_windows_installer_url, GhAsset};

fn rec(id: &str, status: DownloadStatus) -> zdmr::model::DownloadRecord {
    let mut r = new_download_record(id.to_string(), "https://h/x".to_string(), "/d".to_string(), false, None, "t0".to_string());
    r.status = status;
    r
}

#[test]
fn crash_recovery_pauses_downloading_rows() {
    let mut v = vec![
        rec("a", DownloadStatus::Downloading),
        rec("b", DownloadStatus::Completed),
        rec("c", DownloadStatus::Queued),
    ];
    v[0].bytes_downloaded = 4096;
    v[0].temp_path = Some("/d/.zdmr-a.part".to_string());
    recover_incomplete(&mut v, "t1".to_string());
    assert_eq!(v[0].status, DownloadStatus::Paused);
    assert_eq!(v[0].bytes_downloaded, 4096);
    assert_eq!(v[0].temp_path.as_deref(), Some("/d/.zdmr-a.part"));
    assert_eq!(v[0].updated_at, "t1");
    assert_eq!(v[1].status, DownloadStatus::Completed);
    assert_eq!(v[1].updated_at, "t0");
    assert_eq!(v[2].status, DownloadStatus::Queued);
}

#[test]
fn status_updates_stamp_times() {
    let mut r = rec("a", DownloadStatus::Queued);
    update_status(&mut r, DownloadStatus::Downloading, None, None, "t1".to_string());
    assert_eq!(r.started_at.as_deref(), Some("t1"));
    update_status(&mut r, DownloadStatus::Paused, None, None, "t2".to_string());
    update_status(&mut r, DownloadStatus::Downloading, None, None, "t3".to_string());
    assert_eq!(r.started_at.as_deref(), Some("t1"));
    assert_eq!(r.completed_at, None);
    update_status(&mut r, DownloadStatus::Completed, None, None, "t4".to_string());
    assert_eq!(r.completed_at.as_deref(), Some("t4"));
    update_status(&mut r, DownloadStatus::Error, Some(ErrorCode::Http4xx), Some("HTTP 404".to_string()), "t5".to_string());
    assert_eq!(r.error_code, Some(ErrorCode::Http4xx));
    assert_eq!(r.updated_at, "t5");
}

#[test]
fn retry_clears_error_and_progress() {
    let mut r = rec("a", DownloadStatus::Error);
    r.error_code = Some(ErrorCode::Timeout);
    r.error_message = Some("timed out".to_string());
    r.bytes_downloaded = 99;
    r.supports_ranges = Some(true);
    r.mirror_used = Some("https://m".to_string());
    r.final_filename = Some("x.bin".to_string());
    reset_for_retry(&mut r, "t9".to_string());
    assert_eq!(r.status, DownloadStatus::Queued);
    assert_eq!(r.error_code, None);
    assert_eq!(r.error_message, None);
    assert_eq!(r.bytes_downloaded, 0);
    assert_eq!(r.supports_ranges, None);
    assert_eq!(r.mirror_used, None);
    assert_eq!(r.final_filename.as_deref(), Some("x.bin"));
}

fn seg(id: i64, start: i64, end: i64, done: i64) -> SegmentRowWithId {
    SegmentRowWithId { id, range_start: start, range_end: end, bytes_done: done, status: SegmentStatus::Active, last_error: None }
}

#[test]
fn downloaded_bytes_are_the_sum_of_segments() {
    let mut p = SegmentProgress::new(vec![seg(1, 0, 99, 10), seg(2, 100, 199, 5)]).unwrap();
    assert_eq!(p.bytes_downloaded, 15);
    p.record_chunk(1, 20);
    p.record_chunk(0, 7);
    assert_eq!(p.bytes_downloaded, 42);
    assert_eq!(p.segments[0].bytes_done, 17);
    assert_eq!(p.segments[1].bytes_done, 25);
    p.set_status(1, SegmentStatus::Completed);
    assert_eq!(p.bytes_downloaded, p.segments.iter().map(|s| s.bytes_done).sum::<i64>());
    assert!(SegmentProgress::new(vec![seg(1, 0, 9, -1)]).is_none());
    assert!(SegmentProgress::new(vec![seg(1, 0, 9, i64::MAX), seg(2, 0, 9, 1)]).is_none());
}

#[test]
fn progress_sample_smooths_speed() {
    let s = progress_sample(0, 0, 1000, Some(10_000), 100);
    assert_eq!(s, SpeedSample { speed_bps: 2000, eta_seconds: Some(4) });
    let s2 = progress_sample(10_000, 500, 500, None, 33);
    assert_eq!(s2, SpeedSample { speed_bps: 8000, eta_seconds: None });
    let s3 = progress_sample(5, 0, 0, Some(100), 33);
    assert_eq!(s3.speed_bps, 4);
    assert_eq!(s3.eta_seconds, Some(25));
}

#[test]
fn zero_limit_never_delays() {
    let mut l = BandwidthLimiter::new(0);
    assert!(l.try_acquire(1_000_000));
    assert!(l.try_acquire(0));
    l.refill(20_000);
    assert_eq!(l.credits(), 0);
}

#[test]
fn limiter_paces_at_the_limit() {
    let mut l = BandwidthLimiter::new(1024);
    assert!(!l.try_acquire(512));
    l.refill(500_000);
    assert_eq!(l.credits(), 512);
    assert!(l.try_acquire(512));
    assert!(!l.try_acquire(1));
    l.refill(5_000_000);
    assert_eq!(l.credits(), 1024);
    l.set_limit_bps(100);
    assert_eq!(l.limit_bps(), 100);
    assert_eq!(l.credits(), 100);
    assert!(l.try_acquire(-5));
}

#[test]
fn error_codes_persist_by_name() {
    assert_eq!(format_code(ErrorCode::RemoteChanged), "REMOTE_CHANGED");
    assert_eq!(format_code(ErrorCode::Http4xx), "HTTP_4XX");
    assert_eq!(parse_error_code("RANGE_UNSUPPORTED".to_string()), Some(ErrorCode::RangeUnsupported));
    assert_eq!(parse_error_code("whatever".to_string()), Some(ErrorCode::Unknown));
    assert_eq!(code_for_http_status(404), ErrorCode::Http4xx);
    assert_eq!(code_for_http_status(502), ErrorCode::Http5xx);
    assert_eq!(code_for_http_status(302), ErrorCode::Unknown);
    assert_eq!(code_for_transport_failure(true, true), ErrorCode::Timeout);
    assert_eq!(code_for_transport_failure(false, true), ErrorCode::ConnectFail);
    assert_eq!(code_for_transport_failure(false, false), ErrorCode::Unknown);
    assert!(ErrorCode::Http5xx.is_retryable());
    assert!(!ErrorCode::DiskFull.is_retryable());
}

#[test]
fn statuses_persist_by_name() {
    assert_eq!(status_to_str(DownloadStatus::Downloading), "DOWNLOADING");
    assert_eq!(parse_status("PAUSED"), DownloadStatus::Paused);
    assert_eq!(parse_status("garbage"), DownloadStatus::Error);
    for s in [
        DownloadStatus::Queued,
        DownloadStatus::Downloading,
        DownloadStatus::Paused,
        DownloadStatus::Completed,
        DownloadStatus::Error,
    ] {
        assert_eq!(parse_status(status_to_str(s)), s);
    }
}

#[test]
fn pause_command_signals_running_job() {
    let active = vec!["a".to_string()];
    let plan = plan_command(EngineCommand::Pause { id: "a".to_string() }, &vec![], &active, &vec![]);
    assert_eq!(plan.len(), 3);
    assert!(matches!(&plan[0], EngineAction::Signal { id, control: JobControl::Pause } if id == "a"));
    assert!(matches!(&plan[1], EngineAction::SetStatus { id, status: DownloadStatus::Paused } if id == "a"));
    assert!(matches!(plan[2], EngineAction::NotifyChanged));
    let idle = plan_command(EngineCommand::Pause { id: "b".to_string() }, &vec![], &active, &vec![]);
    assert_eq!(idle.len(), 2);
}

#[test]
fn add_command_inserts_queues_and_starts() {
    let cmd = EngineCommand::AddDownloads {
        urls: vec!["https://h/1".to_string(), "https://h/2".to_string()],
        dest_dir: "/d".to_string(),
        batch_id: Some("b1".to_string()),
        forced_proxy: false,
        forced_proxy_url: None,
    };
    let ids = vec!["i1".to_string(), "i2".to_string()];
    let plan = plan_command(cmd, &ids, &vec![], &vec![]);
    assert_eq!(plan.len(), 9);
    assert!(matches!(&plan[0], EngineAction::InsertDownload { id, url, .. } if id == "i1" && url == "https://h/1"));
    assert!(matches!(&plan[1], EngineAction::AttachToBatch { id, batch_id } if id == "i1" && batch_id == "b1"));
    assert!(matches!(&plan[3], EngineAction::Start { id } if id == "i1"));
    assert!(matches!(&plan[4], EngineAction::InsertDownload { id, .. } if id == "i2"));
    assert!(matches!(plan[8], EngineAction::NotifyChanged));
}

#[test]
fn retry_delete_and_bulk_commands() {
    let active = vec!["a".to_string(), "b".to_string()];
    let retry = plan_command(EngineCommand::Retry { id: "a".to_string() }, &vec![], &active, &vec![]);
    assert!(matches!(&retry[0], EngineAction::Signal { control: JobControl::Cancel, .. }));
    assert!(matches!(&retry[2], EngineAction::ResetForRetry { .. }));
    let del = plan_command(EngineCommand::Delete { id: "z".to_string() }, &vec![], &active, &vec![]);
    assert_eq!(del.len(), 4);
    assert!(matches!(&del[2], EngineAction::DeleteDownload { id } if id == "z"));
    let pause_all = plan_command(EngineCommand::PauseAll, &vec![], &active, &vec![]);
    assert_eq!(pause_all.len(), 2);
    let listed = vec![
        ("p".to_string(), DownloadStatus::Paused),
        ("c".to_string(), DownloadStatus::Completed),
        ("q".to_string(), DownloadStatus::Queued),
    ];
    let resume_all = plan_command(EngineCommand::ResumeAll, &vec![], &active, &listed);
    assert_eq!(resume_all.len(), 2);
    assert!(matches!(&resume_all[1], EngineAction::Start { id } if id == "q"));
    let limit = plan_command(EngineCommand::UpdateSettings { bandwidth_limit_bps: None }, &vec![], &active, &vec![]);
    assert!(matches!(limit[0], EngineAction::SetBandwidthLimit { bps: 0 }));
    assert!(!should_start(&active, &"a".to_string()));
    assert!(should_start(&active, &"n".to_string()));
}

#[test]
fn installer_prefers_setup_exe() {
    let a = |n: &str, u: &str| GhAsset { name: n.to_string(), browser_download_url: u.to_string() };
    let assets = vec![a("app.msi", "u1"), a("App_x64-Setup.EXE", "u2"), a("notes.txt", "u3")];
    assert_eq!(pick_windows_installer_url(&assets), Some("u2".to_string()));
    let msi_only = vec![a("notes.txt", "u3"), a("APP.MSI", "u4")];
    assert_eq!(pick_windows_installer_url(&msi_only), Some("u4".to_string()));
    assert_eq!(pick_windows_installer_url(&vec![a("src.tar.gz", "u5")]), None);
}

#[test]
fn oversized_requests_go_in_one_second_pieces() {
    let mut l = BandwidthLimiter::new(1024);
    let mut remaining: i64 = 64 * 1024;
    let mut seconds = 0;
    while remaining > 0 {
        let piece = l.next_piece(remaining);
        assert!(piece > 0 && piece <= 1024);
        if l.try_acquire(piece) {
            remaining -= piece;
        } else {
            l.refill(1_000_000);
            seconds += 1;
        }
    }
    assert_eq!(seconds, 64);
    let unlimited = BandwidthLimiter::new(0);
    assert_eq!(unlimited.next_piece(1 << 40), 1 << 40);
}
