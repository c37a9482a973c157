//! The state transitions the durable store applies to download records, and
//! the byte accounting of segmented transfers.

use vstd::prelude::*;
use crate::error::ErrorCode;
use crate::model::{clone_opt, DownloadRecord, DownloadStatus};

verus! {

/// The fields of a record other than status, errors, timestamps and progress
/// are those of `b`.
pub open spec fn same_identity(a: DownloadRecord, b: DownloadRecord) -> bool {
    &&& a.id == b.id
    &&& a.created_at == b.created_at
    &&& a.forced_proxy == b.forced_proxy
    &&& a.forced_proxy_url == b.forced_proxy_url
    &&& a.original_url == b.original_url
    &&& a.resolved_url == b.resolved_url
    &&& a.dest_dir == b.dest_dir
    &&& a.final_filename == b.final_filename
    &&& a.temp_path == b.temp_path
    &&& a.content_length == b.content_length
    &&& a.etag == b.etag
    &&& a.last_modified == b.last_modified
    &&& a.batch_id == b.batch_id
}

/// A new download as first stored: queued, nothing known, nothing done.
pub fn new_download_record(
    id: String,
    original_url: String,
    dest_dir: String,
    forced_proxy: bool,
    forced_proxy_url: Option<String>,
    now: String,
) -> (r: DownloadRecord)
    ensures
        r.id == id,
        r.original_url == original_url,
        r.dest_dir == dest_dir,
        r.forced_proxy == forced_proxy,
        r.forced_proxy_url == forced_proxy_url,
        r.created_at == now,
        r.updated_at == now,
        r.status == DownloadStatus::Queued,
        r.bytes_downloaded == 0,
        r.started_at is None && r.completed_at is None,
        r.resolved_url is None && r.final_filename is None && r.temp_path is None,
        r.error_code is None && r.error_message is None,
        r.content_length is None && r.etag is None && r.last_modified is None,
        r.supports_ranges is None && r.mirror_used is None && r.batch_id is None,
{
    DownloadRecord {
        id,
        created_at: now.clone(),
        updated_at: now,
        started_at: None,
        completed_at: None,
        forced_proxy,
        forced_proxy_url,
        original_url,
        resolved_url: None,
        dest_dir,
        final_filename: None,
        temp_path: None,
        status: DownloadStatus::Queued,
        error_code: None,
        error_message: None,
        content_length: None,
        etag: None,
        last_modified: None,
        bytes_downloaded: 0,
        supports_ranges: None,
        mirror_used: None,
        batch_id: None,
    }
}

/// Sets the status and error fields. Entering `DOWNLOADING` stamps
/// `started_at` once and clears `completed_at`; entering `COMPLETED` stamps
/// `completed_at`.
pub fn update_status(
    rec: &mut DownloadRecord,
    status: DownloadStatus,
    error_code: Option<ErrorCode>,
    error_message: Option<String>,
    now: String,
)
    ensures
        same_identity(*final(rec), *old(rec)),
        final(rec).status == status,
        final(rec).error_code == error_code,
        final(rec).error_message == error_message,
        final(rec).updated_at == now,
        final(rec).bytes_downloaded == old(rec).bytes_downloaded,
        final(rec).supports_ranges == old(rec).supports_ranges,
        final(rec).mirror_used == old(rec).mirror_used,
        status == DownloadStatus::Downloading ==> final(rec).completed_at is None && (
        old(rec).started_at is Some ==> final(rec).started_at == old(rec).started_at) && (
        old(rec).started_at is None ==> final(rec).started_at == Some(now)),
        status == DownloadStatus::Completed ==> final(rec).completed_at == Some(now),
        status != DownloadStatus::Downloading && status != DownloadStatus::Completed
            ==> final(rec).completed_at == old(rec).completed_at,
        status != DownloadStatus::Downloading ==> final(rec).started_at == old(rec).started_at,
{
    match status {
        DownloadStatus::Downloading => {
            if rec.started_at.is_none() {
                rec.started_at = Some(now.clone());
            }
            rec.completed_at = None;
        },
        DownloadStatus::Completed => {
            rec.completed_at = Some(now.clone());
        },
        _ => {},
    }
    rec.status = status;
    rec.error_code = error_code;
    rec.error_message = error_message;
    rec.updated_at = now;
}

/// Prepares a download to start over: queued, no error, no progress, range
/// support and mirror forgotten. Its segments are dropped by the caller.
pub fn reset_for_retry(rec: &mut DownloadRecord, now: String)
    ensures
        same_identity(*final(rec), *old(rec)),
        final(rec).status == DownloadStatus::Queued,
        final(rec).error_code is None && final(rec).error_message is None,
        final(rec).bytes_downloaded == 0,
        final(rec).supports_ranges is None,
        final(rec).mirror_used is None,
        final(rec).updated_at == now,
        final(rec).started_at == old(rec).started_at,
        final(rec).completed_at == old(rec).completed_at,
{
    rec.status = DownloadStatus::Queued;
    rec.error_code = None;
    rec.error_message = None;
    rec.bytes_downloaded = 0;
    rec.supports_ranges = None;
    rec.mirror_used = None;
    rec.updated_at = now;
}

/// The record a crash leaves behind, as it is read back at start.
pub open spec fn recovered(before: DownloadRecord, after: DownloadRecord, now: String) -> bool {
    if before.status == DownloadStatus::Downloading {
        &&& after.status == DownloadStatus::Paused
        &&& after.updated_at == now
        &&& same_identity(after, before)
        &&& after.bytes_downloaded == before.bytes_downloaded
        &&& after.error_code == before.error_code
        &&& after.error_message == before.error_message
        &&& after.started_at == before.started_at
        &&& after.completed_at == before.completed_at
        &&& after.supports_ranges == before.supports_ranges
        &&& after.mirror_used == before.mirror_used
    } else {
        after == before
    }
}

/// Crash recovery at start: every record left `DOWNLOADING` becomes
/// `PAUSED`, keeping its progress and its temporary file; the others stay as
/// they are.
pub fn recover_incomplete(records: &mut Vec<DownloadRecord>, now: String)
    ensures
        final(records)@.len() == old(records)@.len(),
        forall|i: int|
            0 <= i < old(records)@.len() ==> recovered(#[trigger] old(records)@[i], final(records)@[i], now),
        forall|i: int|
            0 <= i < final(records)@.len() ==> #[trigger] final(records)@[i].status
                != DownloadStatus::Downloading,
{
    let ghost start = records@;
    let mut i: usize = 0;
    while i < records.len()
        invariant
            i <= records@.len(),
            records@.len() == start.len(),
            forall|k: int| 0 <= k < i ==> recovered(#[trigger] start[k], records@[k], now),
            forall|k: int| i <= k < records@.len() ==> #[trigger] records@[k] == start[k],
            forall|k: int| 0 <= k < i ==> #[trigger] records@[k].status != DownloadStatus::Downloading,
        decreases records@.len() - i,
    {
        if records[i].status == DownloadStatus::Downloading {
            let mut rec = records[i].clone_record();
            rec.status = DownloadStatus::Paused;
            rec.updated_at = now.clone();
            records.set(i, rec);
        }
        i += 1;
    }
}

impl DownloadRecord {
    /// A copy of the record.
    pub fn clone_record(&self) -> (r: DownloadRecord)
        ensures
            r == *self,
    {
        DownloadRecord {
            id: self.id.clone(),
            created_at: self.created_at.clone(),
            updated_at: self.updated_at.clone(),
            started_at: clone_opt(&self.started_at),
            completed_at: clone_opt(&self.completed_at),
            forced_proxy: self.forced_proxy,
            forced_proxy_url: clone_opt(&self.forced_proxy_url),
            original_url: self.original_url.clone(),
            resolved_url: clone_opt(&self.resolved_url),
            dest_dir: self.dest_dir.clone(),
            final_filename: clone_opt(&self.final_filename),
            temp_path: clone_opt(&self.temp_path),
            status: self.status,
            error_code: self.error_code,
            error_message: clone_opt(&self.error_message),
            content_length: self.content_length,
            etag: clone_opt(&self.etag),
            last_modified: clone_opt(&self.last_modified),
            bytes_downloaded: self.bytes_downloaded,
            supports_ranges: self.supports_ranges,
            mirror_used: clone_opt(&self.mirror_used),
            batch_id: clone_opt(&self.batch_id),
        }
    }
}

} // verus!
