//! The entities the engine keeps: downloads, segments, settings, rules and requests.

use vstd::prelude::*;
use crate::error::ErrorCode;

verus! {

/// Lifecycle of a download.
#[derive(Debug, Clone, Copy, PartialEq, Eq, Structural)]
pub enum DownloadStatus {
    Queued,
    Downloading,
    Paused,
    Completed,
    Error,
}

/// The persisted, uppercase name of each status.
pub open spec fn status_text(s: DownloadStatus) -> Seq<char> {
    match s {
        DownloadStatus::Queued => "QUEUED"@,
        DownloadStatus::Downloading => "DOWNLOADING"@,
        DownloadStatus::Paused => "PAUSED"@,
        DownloadStatus::Completed => "COMPLETED"@,
        DownloadStatus::Error => "ERROR"@,
    }
}

/// The status a persisted name stands for; an unknown name stands for `Error`.
pub open spec fn status_from_text(t: Seq<char>) -> DownloadStatus {
    if t == "QUEUED"@ {
        DownloadStatus::Queued
    } else if t == "DOWNLOADING"@ {
        DownloadStatus::Downloading
    } else if t == "PAUSED"@ {
        DownloadStatus::Paused
    } else if t == "COMPLETED"@ {
        DownloadStatus::Completed
    } else {
        DownloadStatus::Error
    }
}

/// Lifecycle of a segment.
#[derive(Debug, Clone, Copy, PartialEq, Eq, Structural)]
pub enum SegmentStatus {
    Active,
    Completed,
    Error,
}

/// The one-slot control signal that a job and its workers watch.
#[derive(Debug, Clone, Copy, PartialEq, Eq, Structural)]
pub enum JobControl {
    Run,
    Pause,
    Cancel,
}

/// One persisted download.
#[derive(Debug, Clone)]
pub struct DownloadRecord {
    pub id: String,
    pub created_at: String,
    pub updated_at: String,
    pub started_at: Option<String>,
    pub completed_at: Option<String>,
    pub forced_proxy: bool,
    pub forced_proxy_url: Option<String>,
    pub original_url: String,
    pub resolved_url: Option<String>,
    pub dest_dir: String,
    pub final_filename: Option<String>,
    pub temp_path: Option<String>,
    pub status: DownloadStatus,
    pub error_code: Option<ErrorCode>,
    pub error_message: Option<String>,
    pub content_length: Option<i64>,
    pub etag: Option<String>,
    pub last_modified: Option<String>,
    pub bytes_downloaded: i64,
    pub supports_ranges: Option<bool>,
    pub mirror_used: Option<String>,
    pub batch_id: Option<String>,
}

/// A planned byte range of a download, `range_start..=range_end`.
#[derive(Debug, Clone)]
pub struct SegmentRow {
    pub range_start: i64,
    pub range_end: i64,
    pub bytes_done: i64,
    pub status: SegmentStatus,
    pub last_error: Option<String>,
}

/// A stored segment with its row id.
#[derive(Debug, Clone)]
pub struct SegmentRowWithId {
    pub id: i64,
    pub range_start: i64,
    pub range_end: i64,
    pub bytes_done: i64,
    pub status: SegmentStatus,
    pub last_error: Option<String>,
}

/// The user settings the engine reads.
#[derive(Debug, Clone)]
pub struct SettingsSnapshot {
    pub default_download_dir: String,
    pub bandwidth_limit_bps: Option<i64>,
    pub minimize_to_tray: bool,
    pub theme: String,
    pub skin: String,
    pub global_hotkey: String,
    pub global_proxy_enabled: bool,
    pub global_proxy_url: Option<String>,
    pub local_api_port: i64,
}

/// Whether a host goes through a proxy.
#[derive(Debug, Clone)]
pub struct ProxyRule {
    pub id: i64,
    pub pattern: String,
    pub enabled: bool,
    pub use_proxy: bool,
    pub proxy_url_override: Option<String>,
}

/// How a header rule sets one header.
#[derive(Debug, Clone, Copy, PartialEq, Eq, Structural)]
pub enum HeaderMode {
    Override,
    AddIfMissing,
}

/// The value a header rule gives for one header: a plain string, or a
/// `{value, mode}` object (`None` where the object lacks the field or holds a
/// non-string there), or something else, which is skipped.
#[derive(Debug, Clone)]
pub enum HeaderValueSpec {
    Plain(String),
    Detailed { value: Option<String>, mode: Option<String> },
    Unsupported,
}

/// One header that a rule asks for.
#[derive(Debug, Clone)]
pub struct HeaderSpec {
    pub name: String,
    pub value: HeaderValueSpec,
}

/// Headers injected for matching hosts.
#[derive(Debug, Clone)]
pub struct HeaderRule {
    pub id: i64,
    pub pattern: String,
    pub enabled: bool,
    pub headers: Vec<HeaderSpec>,
}

/// Alternative origins for matching hosts, in order of preference.
#[derive(Debug, Clone)]
pub struct MirrorRule {
    pub id: i64,
    pub pattern: String,
    pub enabled: bool,
    pub candidate_base_urls: Vec<String>,
}

/// The rules a job sees, frozen when it starts.
#[derive(Debug, Clone)]
pub struct RulesSnapshot {
    pub proxy_rules: Vec<ProxyRule>,
    pub header_rules: Vec<HeaderRule>,
    pub mirror_rules: Vec<MirrorRule>,
}

#[derive(Debug, Clone)]
pub struct NewBatchRequest {
    pub name: Option<String>,
    pub dest_dir: String,
    pub raw_url_list: Option<String>,
    pub urls: Vec<String>,
    pub download_through_proxy: Option<bool>,
}

#[derive(Debug, Clone)]
pub struct AddDownloadsRequest {
    pub urls: Vec<String>,
    pub dest_dir: Option<String>,
}

/// The commands the dispatcher takes.
#[derive(Debug)]
pub enum EngineCommand {
    AddDownloads {
        urls: Vec<String>,
        dest_dir: String,
        batch_id: Option<String>,
        forced_proxy: bool,
        forced_proxy_url: Option<String>,
    },
    Pause { id: String },
    Resume { id: String },
    Retry { id: String },
    Delete { id: String },
    PauseAll,
    ResumeAll,
    UpdateSettings { bandwidth_limit_bps: Option<i64> },
}

/// A copy of an optional text.
pub fn clone_opt(o: &Option<String>) -> (r: Option<String>)
    ensures
        r == *o,
{
    match o {
        Some(s) => Some(s.clone()),
        None => None,
    }
}

/// The persisted name of a status.
pub fn status_to_str(s: DownloadStatus) -> (r: &'static str)
    ensures
        r@ == status_text(s),
{
    match s {
        DownloadStatus::Queued => "QUEUED",
        DownloadStatus::Downloading => "DOWNLOADING",
        DownloadStatus::Paused => "PAUSED",
        DownloadStatus::Completed => "COMPLETED",
        DownloadStatus::Error => "ERROR",
    }
}

/// Reads a persisted status; an unknown name reads as `Error`.
pub fn parse_status(s: &str) -> (r: DownloadStatus)
    ensures
        r == status_from_text(s@),
{
    if crate::text::str_eq(s, "QUEUED") {
        DownloadStatus::Queued
    } else if crate::text::str_eq(s, "DOWNLOADING") {
        DownloadStatus::Downloading
    } else if crate::text::str_eq(s, "PAUSED") {
        DownloadStatus::Paused
    } else if crate::text::str_eq(s, "COMPLETED") {
        DownloadStatus::Completed
    } else {
        DownloadStatus::Error
    }
}

} // verus!
