//! The decisions of one download job: what to try, how to read a probe, when
//! the remote changed, how to transfer, when to downgrade, when to give up.

use vstd::prelude::*;
use crate::error::{http_status_code, retryable, ErrorCode};
use crate::model::{DownloadRecord, JobControl, RulesSnapshot, SegmentRowWithId, SegmentStatus};
use crate::pattern::{is_best, no_match};
use crate::planner::multipart_chosen;
use crate::text::{chars_of, find, lower, lower_chars, str_eq};
use crate::transport::{rebased_all, views, Transport};
use crate::url::{opt_view, parse_url, url_host, url_href, url_parses, url_path, url_query, UrlParts};

verus! {

/// What a successful probe reported.
#[derive(Debug)]
pub struct ProbeInfo {
    pub supports_ranges: Option<bool>,
    pub content_length: Option<i64>,
    pub etag: Option<String>,
    pub last_modified: Option<String>,
    pub content_disposition: Option<String>,
    pub content_type: Option<String>,
}

/// Which freshness witness changed.
#[derive(Debug, Clone, Copy, PartialEq, Eq, Structural)]
pub enum Mismatch {
    ETag,
    LastModified,
}

/// How the bytes are fetched within one attempt.
#[derive(Debug, Clone, Copy, PartialEq, Eq, Structural)]
pub enum TransferMode {
    Multipart,
    Single,
}

/// What the multipart supervisor does after a poll.
#[derive(Debug, Clone, Copy, PartialEq, Eq, Structural)]
pub enum MultipartPoll {
    Paused,
    Downgrade,
    Done,
    Continue,
}

/// What a segment worker does first.
#[derive(Debug, Clone, Copy, PartialEq, Eq, Structural)]
pub enum SegmentStep {
    /// Already completed: nothing to do.
    Skip,
    /// Every byte is there: mark the segment completed.
    MarkCompleted,
    /// Request `Range: bytes={from}-{to}`.
    Request { from: i64, to: i64 },
}

/// Where a single-stream transfer starts.
#[derive(Debug, Clone, Copy, PartialEq, Eq, Structural)]
pub struct SingleStart {
    /// Offset of the first byte requested and written.
    pub start: i64,
    /// Whether a `Range: bytes={start}-` header is sent.
    pub ranged: bool,
    /// Whether the stored progress is reset to zero first.
    pub reset_progress: bool,
}

/// A status line that fails a request: 4xx or 5xx.
pub open spec fn is_error_status(status: u16) -> bool {
    400 <= status < 600
}

pub open spec fn bytes_word() -> Seq<char> {
    seq!['b', 'y', 't', 'e', 's']
}

/// `Accept-Ranges` advertises byte ranges when it mentions `bytes`, in any case.
pub open spec fn ranges_advertised(accept_ranges: Option<Seq<char>>) -> Option<bool> {
    match accept_ranges {
        Some(v) => Some(find(lower(v), bytes_word()) is Some),
        None => None,
    }
}

pub open spec fn is_digit(c: char) -> bool {
    '0' <= c && c <= '9'
}

pub open spec fn digits_value(s: Seq<char>) -> int
    decreases s.len(),
{
    if s.len() == 0 {
        0
    } else {
        digits_value(s.drop_last()) * 10 + (s.last() as int - '0' as int)
    }
}

pub open spec fn all_digits(s: Seq<char>) -> bool {
    s.len() > 0 && forall|i: int| 0 <= i < s.len() ==> is_digit(#[trigger] s[i])
}

/// What `str::parse::<i64>` gives: an optional sign, then decimal digits,
/// and a value that fits.
pub open spec fn parsed_i64(s: Seq<char>) -> Option<int> {
    if s.len() > 0 && s[0] == '-' {
        let d = s.drop_first();
        if all_digits(d) && -digits_value(d) >= i64::MIN {
            Some(-digits_value(d))
        } else {
            None
        }
    } else {
        let d = if s.len() > 0 && s[0] == '+' {
            s.drop_first()
        } else {
            s
        };
        if all_digits(d) && digits_value(d) <= i64::MAX {
            Some(digits_value(d))
        } else {
            None
        }
    }
}

/// The remote changed when a recorded witness and the new one are both
/// present and differ; the `ETag` is compared first.
pub open spec fn freshness(
    prev_etag: Option<String>,
    cur_etag: Option<String>,
    prev_lm: Option<String>,
    cur_lm: Option<String>,
) -> Option<Mismatch> {
    if prev_etag is Some && cur_etag is Some && prev_etag->0@ != cur_etag->0@ {
        Some(Mismatch::ETag)
    } else if prev_lm is Some && cur_lm is Some && prev_lm->0@ != cur_lm->0@ {
        Some(Mismatch::LastModified)
    } else {
        None
    }
}

/// The transfer mode after a failure in `mode`: a multipart transfer whose
/// ranged requests failed goes on as a single stream; nothing else goes on.
pub open spec fn next_mode(mode: TransferMode, failure: Option<ErrorCode>) -> Option<TransferMode> {
    if mode == TransferMode::Multipart && failure == Some(ErrorCode::RangeUnsupported) {
        Some(TransferMode::Single)
    } else {
        None
    }
}

pub open spec fn stop_requested(c: JobControl) -> bool {
    c == JobControl::Pause || c == JobControl::Cancel
}

/// The candidate URLs of a download, as views: the original's serialization,
/// then its mirror candidates, when the original parses.
pub fn attempt_urls(original_url: &str, rules: &RulesSnapshot) -> (r: Result<Vec<String>, ErrorCode>)
    ensures
        r is Err <==> !url_parses(original_url@),
        r matches Err(e) ==> e == ErrorCode::InvalidUrl,
        r matches Ok(v) ==> {
            &&& v@.len() >= 1
            &&& v@[0]@ == url_href(original_url@)
            &&& url_host(original_url@) is None ==> v@.len() == 1
            &&& url_host(original_url@) matches Some(h) ==> {
                &&& no_match(rules.mirror_rules@, h) ==> v@.len() == 1
                &&& forall|k: int|
                    is_best(rules.mirror_rules@, h, k) ==> views(v@.drop_first()) == rebased_all(
                        #[trigger] rules.mirror_rules@[k].candidate_base_urls@,
                        url_path(original_url@),
                        url_query(original_url@),
                    )
            }
        },
{
    let parsed = match parse_url(original_url) {
        Some(u) => u,
        None => return Err(ErrorCode::InvalidUrl),
    };
    let mirrors = Transport::mirror_candidates(rules, &parsed);
    let mut out: Vec<String> = Vec::new();
    out.push(parsed.href.clone());
    let mut i: usize = 0;
    while i < mirrors.len()
        invariant
            i <= mirrors@.len(),
            out@.len() == i + 1,
            out@[0]@ == parsed.href@,
            out@.drop_first() == mirrors@.subrange(0, i as int),
        decreases mirrors@.len() - i,
    {
        let ghost before = out@;
        out.push(mirrors[i].clone());
        assert(out@.drop_first() =~= mirrors@.subrange(0, i + 1));
        i += 1;
    }
    assert(mirrors@.subrange(0, mirrors@.len() as int) =~= mirrors@);
    proof {
        match parsed.host {
            Some(h) => {
                assert(Some(h@) == url_host(original_url@));
            },
            None => {},
        }
    }
    Ok(out)
}

/// The mirror recorded for an attempt: none for the original (index 0),
/// else the candidate's origin.
pub fn mirror_used_for(attempt_idx: usize, candidate: &UrlParts) -> (r: Option<String>)
    ensures
        attempt_idx == 0 ==> r is None,
        attempt_idx > 0 ==> opt_view(r) == Some(candidate.origin@),
{
    if attempt_idx == 0 {
        None
    } else {
        Some(candidate.origin.clone())
    }
}

/// A probe or request answered with `status` fails with the matching code
/// when the status is 4xx or 5xx.
pub fn check_response_status(status: u16) -> (r: Result<(), ErrorCode>)
    ensures
        r is Err <==> is_error_status(status),
        r matches Err(c) ==> c == http_status_code(status),
{
    if 400 <= status && status < 600 {
        Err(crate::error::code_for_http_status(status))
    } else {
        Ok(())
    }
}

/// Reads `Accept-Ranges`; an absent header leaves range support unknown.
pub fn supports_ranges_from(accept_ranges: Option<&str>) -> (r: Option<bool>)
    ensures
        r == ranges_advertised(crate::naming::opt_str(accept_ranges)),
{
    match accept_ranges {
        Some(v) => {
            let l = lower_chars(chars_of(v).as_slice());
            let w: Vec<char> = vec!['b', 'y', 't', 'e', 's'];
            assert(w@ =~= bytes_word());
            let f = crate::text::find_from_exec(l.as_slice(), w.as_slice(), 0);
            Some(f.is_some())
        },
        None => None,
    }
}

/// Reads a decimal header value such as `Content-Length`, as `str::parse::<i64>` does.
pub fn parse_i64_header(s: &str) -> (r: Option<i64>)
    ensures
        match r {
            Some(v) => parsed_i64(s@) == Some(v as int),
            None => parsed_i64(s@) is None,
        },
{
    let v = chars_of(s);
    let n = v.len();
    let neg = n > 0 && v[0] == '-';
    let start: usize = if n > 0 && (v[0] == '-' || v[0] == '+') {
        1
    } else {
        0
    };
    let ghost d = v@.subrange(start as int, n as int);
    proof {
        if n > 0 && v@[0] == '-' {
            assert(d =~= v@.drop_first());
        } else if n > 0 && v@[0] == '+' {
            assert(d =~= v@.drop_first());
        } else {
            assert(d =~= v@);
        }
    }
    if start >= n {
        return None;
    }
    let limit: u128 = 9223372036854775808;
    let mut acc: u128 = 0;
    let mut i = start;
    while i < n
        invariant
            start <= i <= n,
            n == v@.len(),
            v@ == s@,
            limit == 9223372036854775808u128,
            start < n,
            d == v@.subrange(start as int, n as int),
            neg == (n > 0 && v@[0] == '-'),
            start == (if n > 0 && (v@[0] == '-' || v@[0] == '+') { 1usize } else { 0usize }),
            (n > 0 && (v@[0] == '-' || v@[0] == '+')) ==> d == v@.drop_first(),
            !(n > 0 && (v@[0] == '-' || v@[0] == '+')) ==> d == v@,
            acc == digits_value(v@.subrange(start as int, i as int)),
            acc <= limit,
            forall|k: int| start <= k < i ==> is_digit(#[trigger] v@[k]),
        decreases n - i,
    {
        let c = v[i];
        if !('0' <= c && c <= '9') {
            assert(d[i - start] == c);
            assert(!all_digits(d));
            return None;
        }
        let digit = (c as u32 - '0' as u32) as u128;
        assert(digit <= 9);
        assert(v@.subrange(start as int, i + 1).drop_last() =~= v@.subrange(start as int, i as int));
        if acc > (limit - digit) / 10 {
            proof {
                if all_digits(d) {
                    lemma_digits_value_grows(d, (i + 1 - start) as int);
                    assert(d.subrange(0, (i + 1 - start) as int) =~= v@.subrange(start as int, i + 1));
                    assert(acc * 10 + digit > limit) by (nonlinear_arith)
                        requires
                            acc > (limit - digit) / 10,
                            digit <= 9,
                            limit == 9223372036854775808u128,
                    ;
                }
            }
            return None;
        }
        acc = acc * 10 + digit;
        i += 1;
    }
    assert(v@.subrange(start as int, n as int) == d);
    assert(all_digits(d));
    if neg {
        Some((0 - acc as i128) as i64)
    } else if acc <= 9223372036854775807 {
        Some(acc as i64)
    } else {
        None
    }
}

/// A value read from a prefix of digits never exceeds the whole.
proof fn lemma_digits_value_grows(s: Seq<char>, k: int)
    requires
        0 <= k <= s.len(),
        all_digits(s),
    ensures
        digits_value(s.subrange(0, k)) <= digits_value(s),
        digits_value(s) >= 0,
    decreases s.len(),
{
    lemma_digits_nonneg(s);
    if k < s.len() {
        assert(s.drop_last().subrange(0, k) =~= s.subrange(0, k));
        if s.drop_last().len() > 0 {
            assert(all_digits(s.drop_last())) by {
                assert forall|i: int| 0 <= i < s.drop_last().len() implies is_digit(#[trigger] s.drop_last()[i]) by {
                    assert(s.drop_last()[i] == s[i]);
                }
            }
            lemma_digits_value_grows(s.drop_last(), k);
        } else {
            assert(s.subrange(0, k) =~= Seq::<char>::empty());
        }
        assert(is_digit(s[s.len() - 1]));
    } else {
        assert(s.subrange(0, k) =~= s);
    }
}

proof fn lemma_digits_nonneg(s: Seq<char>)
    requires
        forall|i: int| 0 <= i < s.len() ==> is_digit(#[trigger] s[i]),
    ensures
        digits_value(s) >= 0,
    decreases s.len(),
{
    if s.len() > 0 {
        assert forall|i: int| 0 <= i < s.drop_last().len() implies is_digit(#[trigger] s.drop_last()[i]) by {
            assert(s.drop_last()[i] == s[i]);
        }
        lemma_digits_nonneg(s.drop_last());
        assert(is_digit(s[s.len() - 1]));
    }
}

fn same_text(a: &Option<String>, b: &Option<String>) -> (r: bool)
    ensures
        r == (a is Some && b is Some && a->0@ == b->0@),
{
    match (a, b) {
        (Some(x), Some(y)) => str_eq(x.as_str(), y.as_str()),
        _ => false,
    }
}

/// Freshness revalidation against the witnesses recorded on an earlier attempt.
pub fn revalidate(
    prev_etag: &Option<String>,
    cur_etag: &Option<String>,
    prev_last_modified: &Option<String>,
    cur_last_modified: &Option<String>,
) -> (r: Option<Mismatch>)
    ensures
        r == freshness(*prev_etag, *cur_etag, *prev_last_modified, *cur_last_modified),
{
    if prev_etag.is_some() && cur_etag.is_some() && !same_text(prev_etag, cur_etag) {
        Some(Mismatch::ETag)
    } else if prev_last_modified.is_some() && cur_last_modified.is_some() && !same_text(
        prev_last_modified,
        cur_last_modified,
    ) {
        Some(Mismatch::LastModified)
    } else {
        None
    }
}

/// The message recorded with a `REMOTE_CHANGED` error.
pub fn remote_changed_message(m: Mismatch) -> (r: &'static str)
    ensures
        m == Mismatch::ETag ==> r@ == "Remote changed (ETag mismatch)"@,
        m == Mismatch::LastModified ==> r@ == "Remote changed (Last-Modified mismatch)"@,
{
    match m {
        Mismatch::ETag => "Remote changed (ETag mismatch)",
        Mismatch::LastModified => "Remote changed (Last-Modified mismatch)",
    }
}

/// Whether a probe must still choose the file names of the download.
pub fn needs_naming(rec: &DownloadRecord) -> (r: bool)
    ensures
        r == (rec.final_filename is None || rec.temp_path is None),
{
    rec.final_filename.is_none() || rec.temp_path.is_none()
}

/// Records the first successful probe: the chosen names, the URL used and
/// what the server reported. A file name chosen earlier is kept.
pub fn apply_first_probe(
    rec: &mut DownloadRecord,
    resolved_url: String,
    chosen_filename: String,
    temp_path: String,
    probe: ProbeInfo,
    mirror_used: Option<String>,
)
    ensures
        old(rec).final_filename is Some ==> final(rec).final_filename == old(rec).final_filename,
        old(rec).final_filename is None ==> final(rec).final_filename == Some(chosen_filename),
        final(rec).temp_path == Some(temp_path),
        final(rec).resolved_url == Some(resolved_url),
        final(rec).supports_ranges == probe.supports_ranges,
        final(rec).content_length == probe.content_length,
        final(rec).etag == probe.etag,
        final(rec).last_modified == probe.last_modified,
        final(rec).mirror_used == mirror_used,
        final(rec).id == old(rec).id,
        final(rec).status == old(rec).status,
        final(rec).bytes_downloaded == old(rec).bytes_downloaded,
        final(rec).dest_dir == old(rec).dest_dir,
        final(rec).original_url == old(rec).original_url,
        final(rec).created_at == old(rec).created_at,
        final(rec).updated_at == old(rec).updated_at,
        final(rec).started_at == old(rec).started_at,
        final(rec).completed_at == old(rec).completed_at,
        final(rec).forced_proxy == old(rec).forced_proxy,
        final(rec).forced_proxy_url == old(rec).forced_proxy_url,
        final(rec).error_code == old(rec).error_code,
        final(rec).error_message == old(rec).error_message,
        final(rec).batch_id == old(rec).batch_id,
{
    if rec.final_filename.is_none() {
        rec.final_filename = Some(chosen_filename);
    }
    rec.temp_path = Some(temp_path);
    rec.resolved_url = Some(resolved_url);
    rec.supports_ranges = probe.supports_ranges;
    rec.content_length = probe.content_length;
    rec.etag = probe.etag;
    rec.last_modified = probe.last_modified;
    rec.mirror_used = mirror_used;
}

/// The length the transfer works with: what the probe reported, else what
/// was recorded before.
pub fn effective_total(probed: Option<i64>, recorded: Option<i64>) -> (r: Option<i64>)
    ensures
        probed is Some ==> r == probed,
        probed is None ==> r == recorded,
{
    match probed {
        Some(v) => Some(v),
        None => recorded,
    }
}

/// The mode an attempt moves to after a failure; see `next_mode`.
pub fn mode_after_failure(mode: TransferMode, failure: Option<ErrorCode>) -> (r: Option<TransferMode>)
    ensures
        r == next_mode(mode, failure),
{
    match (mode, failure) {
        (TransferMode::Multipart, Some(ErrorCode::RangeUnsupported)) => Some(TransferMode::Single),
        _ => None,
    }
}

/// Where a single stream starts: at the stored progress (never below zero)
/// when the server takes ranges, else at zero, with the stored progress reset
/// where there was some.
pub fn single_start(bytes_downloaded: i64, supports_ranges: bool) -> (r: SingleStart)
    ensures
        supports_ranges && bytes_downloaded > 0 ==> r == (SingleStart {
            start: bytes_downloaded,
            ranged: true,
            reset_progress: false,
        }),
        !supports_ranges && bytes_downloaded > 0 ==> r == (SingleStart {
            start: 0,
            ranged: false,
            reset_progress: true,
        }),
        bytes_downloaded <= 0 ==> r == (SingleStart { start: 0, ranged: false, reset_progress: false }),
{
    if bytes_downloaded <= 0 {
        SingleStart { start: 0, ranged: false, reset_progress: false }
    } else if supports_ranges {
        SingleStart { start: bytes_downloaded, ranged: true, reset_progress: false }
    } else {
        SingleStart { start: 0, ranged: false, reset_progress: true }
    }
}

/// A segment's row is sound: a range inside the `i64` offsets, and no more
/// bytes done than it holds.
pub open spec fn segment_wf(seg: SegmentRowWithId) -> bool {
    &&& 0 <= seg.range_start
    &&& seg.range_start <= seg.range_end + 1
    &&& seg.range_end < i64::MAX
    &&& 0 <= seg.bytes_done <= seg.range_end - seg.range_start + 1
}

/// What a segment worker does first: skip a completed segment, mark one
/// whose bytes are all there, else request the rest of its range.
pub fn segment_step(seg: &SegmentRowWithId) -> (r: SegmentStep)
    requires
        segment_wf(*seg),
    ensures
        seg.status == SegmentStatus::Completed ==> r == SegmentStep::Skip,
        seg.status != SegmentStatus::Completed && seg.range_start + seg.bytes_done > seg.range_end
            ==> r == SegmentStep::MarkCompleted,
        seg.status != SegmentStatus::Completed && seg.range_start + seg.bytes_done <= seg.range_end
            ==> r == (SegmentStep::Request {
            from: (seg.range_start + seg.bytes_done) as i64,
            to: seg.range_end,
        }),
{
    if seg.status == SegmentStatus::Completed {
        return SegmentStep::Skip;
    }
    let start = seg.range_start + seg.bytes_done;
    if start > seg.range_end {
        SegmentStep::MarkCompleted
    } else {
        SegmentStep::Request { from: start, to: seg.range_end }
    }
}

/// How many bytes of a chunk of `chunk_len` bytes that arrives at `offset`
/// belong to a segment ending at `range_end`: none past its end, else up to
/// its last byte. A server that sends more than was asked cannot spill into
/// the next segment.
pub fn segment_take(range_end: i64, offset: i64, chunk_len: usize) -> (r: usize)
    ensures
        offset > range_end ==> r == 0,
        offset <= range_end ==> r as int == crate::planner::min(chunk_len as int, range_end - offset + 1),
        r <= chunk_len,
{
    if offset > range_end {
        return 0;
    }
    let room: i128 = range_end as i128 - offset as i128 + 1;
    if (chunk_len as i128) <= room {
        chunk_len
    } else {
        room as usize
    }
}

/// A ranged request is served only by `206 Partial Content`.
pub fn ranged_response_ok(status: u16) -> (r: bool)
    ensures
        r == (status == 206),
{
    status == 206
}

/// Whether the job's control asks workers to stop.
pub fn should_stop(control: JobControl) -> (r: bool)
    ensures
        r == stop_requested(control),
{
    match control {
        JobControl::Run => false,
        _ => true,
    }
}

pub open spec fn any_error(segs: Seq<SegmentRowWithId>) -> bool {
    exists|i: int| 0 <= i < segs.len() && #[trigger] segs[i].status == SegmentStatus::Error
}

pub open spec fn all_completed(segs: Seq<SegmentRowWithId>) -> bool {
    forall|i: int| 0 <= i < segs.len() ==> #[trigger] segs[i].status == SegmentStatus::Completed
}

/// One poll of the multipart supervisor: a stop request pauses; a failed
/// segment asks for the downgrade; all segments completed ends the transfer.
pub fn multipart_poll(control: JobControl, segs: &Vec<SegmentRowWithId>) -> (r: MultipartPoll)
    ensures
        stop_requested(control) ==> r == MultipartPoll::Paused,
        !stop_requested(control) && any_error(segs@) ==> r == MultipartPoll::Downgrade,
        !stop_requested(control) && !any_error(segs@) && all_completed(segs@) ==> r
            == MultipartPoll::Done,
        !stop_requested(control) && !any_error(segs@) && !all_completed(segs@) ==> r
            == MultipartPoll::Continue,
{
    if should_stop(control) {
        return MultipartPoll::Paused;
    }
    let mut all_done = true;
    let mut i: usize = 0;
    while i < segs.len()
        invariant
            i <= segs@.len(),
            !stop_requested(control),
            forall|k: int| 0 <= k < i ==> #[trigger] segs@[k].status != SegmentStatus::Error,
            all_done == (forall|k: int| 0 <= k < i ==> #[trigger] segs@[k].status == SegmentStatus::Completed),
        decreases segs@.len() - i,
    {
        if segs[i].status == SegmentStatus::Error {
            return MultipartPoll::Downgrade;
        }
        if segs[i].status != SegmentStatus::Completed {
            all_done = false;
        }
        i += 1;
    }
    if all_done {
        MultipartPoll::Done
    } else {
        MultipartPoll::Continue
    }
}

/// The error a download ends with once no attempt succeeded: the last code
/// recorded (`UNKNOWN` where none was) and its message (a default where none was).
pub fn terminal_error(code: Option<ErrorCode>, message: Option<String>) -> (r: (ErrorCode, String))
    ensures
        code matches Some(c) ==> r.0 == c,
        code is None ==> r.0 == ErrorCode::Unknown,
        message matches Some(m) ==> r.1 == m,
        message is None ==> r.1@ == "download failed"@,
{
    let c = match code {
        Some(c) => c,
        None => ErrorCode::Unknown,
    };
    let m = match message {
        Some(m) => m,
        None => String::from_str("download failed"),
    };
    (c, m)
}

/// The size check before the rename: where the length is known, the file
/// must hold exactly that many bytes, else the download fails with `UNKNOWN`.
pub fn check_final_size(total: Option<i64>, actual: u64) -> (r: Result<(), ErrorCode>)
    ensures
        r is Err <==> (total matches Some(len) && len != actual as int),
        r matches Err(c) ==> c == ErrorCode::Unknown,
{
    match total {
        Some(len) => if len < 0 || (len as u64) != actual {
            Err(ErrorCode::Unknown)
        } else {
            Ok(())
        },
        None => Ok(()),
    }
}

/// Where a download job stands.
#[derive(Debug, Clone, Copy, PartialEq, Eq, Structural)]
pub enum JobPhase {
    /// About to try candidate `idx`; `last` is the failure of the one before.
    Next { idx: usize, last: Option<ErrorCode> },
    /// Probing candidate `idx`.
    Probing { idx: usize },
    /// Fetching the bytes from candidate `idx`.
    Transferring { idx: usize, mode: TransferMode },
    Completed,
    Paused,
    Failed { code: ErrorCode },
}

/// What the job learned since its last step.
#[derive(Debug, Clone, Copy, PartialEq, Eq, Structural)]
pub enum JobEvent {
    /// The control signal, read before an attempt.
    Control(JobControl),
    ProbeFailed(ErrorCode),
    /// The probe answered: the freshness check's outcome and what it reported.
    Probed { changed: Option<Mismatch>, total: Option<i64>, supports_ranges: Option<bool> },
    TransferFailed(ErrorCode),
    /// A pause or cancel request stopped the transfer.
    TransferStopped,
    /// The transfer ended with `actual` bytes on disk; `expected` is the
    /// length, where known.
    TransferDone { expected: Option<i64>, actual: u64 },
}

pub open spec fn is_terminal(p: JobPhase) -> bool {
    p is Completed || p is Paused || p is Failed
}

/// After a failed attempt: the next candidate where the code is retryable,
/// else the end.
pub open spec fn after_failure(idx: usize, code: ErrorCode) -> JobPhase {
    if retryable(code) && idx < usize::MAX {
        JobPhase::Next { idx: (idx + 1) as usize, last: Some(code) }
    } else {
        JobPhase::Failed { code }
    }
}

/// One step of a job over `n` candidate URLs. Terminal phases stay; an event
/// that does not belong to the phase changes nothing.
pub open spec fn job_next(p: JobPhase, n: usize, ev: JobEvent) -> JobPhase {
    match p {
        JobPhase::Next { idx, last } => if idx >= n {
            JobPhase::Failed {
                code: match last {
                    Some(c) => c,
                    None => ErrorCode::Unknown,
                },
            }
        } else {
            match ev {
                JobEvent::Control(c) => if stop_requested(c) {
                    JobPhase::Paused
                } else {
                    JobPhase::Probing { idx }
                },
                _ => p,
            }
        },
        JobPhase::Probing { idx } => match ev {
            JobEvent::ProbeFailed(c) => after_failure(idx, c),
            JobEvent::Probed { changed, total, supports_ranges } => if changed is Some {
                JobPhase::Failed { code: ErrorCode::RemoteChanged }
            } else if multipart_chosen(total, supports_ranges) {
                JobPhase::Transferring { idx, mode: TransferMode::Multipart }
            } else {
                JobPhase::Transferring { idx, mode: TransferMode::Single }
            },
            _ => p,
        },
        JobPhase::Transferring { idx, mode } => match ev {
            JobEvent::TransferFailed(c) => match next_mode(mode, Some(c)) {
                Some(m) => JobPhase::Transferring { idx, mode: m },
                None => after_failure(idx, c),
            },
            JobEvent::TransferStopped => JobPhase::Paused,
            JobEvent::TransferDone { expected, actual } => if expected matches Some(len) && len != actual as int {
                JobPhase::Failed { code: ErrorCode::Unknown }
            } else {
                JobPhase::Completed
            },
            _ => p,
        },
        _ => p,
    }
}

/// The job's next phase; see `job_next`.
pub fn job_step(p: JobPhase, n: usize, ev: JobEvent) -> (r: JobPhase)
    ensures
        r == job_next(p, n, ev),
{
    match p {
        JobPhase::Next { idx, last } => {
            if idx >= n {
                return JobPhase::Failed {
                    code: match last {
                        Some(c) => c,
                        None => ErrorCode::Unknown,
                    },
                };
            }
            match ev {
                JobEvent::Control(c) => if should_stop(c) {
                    JobPhase::Paused
                } else {
                    JobPhase::Probing { idx }
                },
                _ => p,
            }
        },
        JobPhase::Probing { idx } => match ev {
            JobEvent::ProbeFailed(c) => failure_phase(idx, c),
            JobEvent::Probed { changed, total, supports_ranges } => if changed.is_some() {
                JobPhase::Failed { code: ErrorCode::RemoteChanged }
            } else if crate::planner::use_multipart(total, supports_ranges) {
                JobPhase::Transferring { idx, mode: TransferMode::Multipart }
            } else {
                JobPhase::Transferring { idx, mode: TransferMode::Single }
            },
            _ => p,
        },
        JobPhase::Transferring { idx, mode } => match ev {
            JobEvent::TransferFailed(c) => match mode_after_failure(mode, Some(c)) {
                Some(m) => JobPhase::Transferring { idx, mode: m },
                None => failure_phase(idx, c),
            },
            JobEvent::TransferStopped => JobPhase::Paused,
            JobEvent::TransferDone { expected, actual } => match check_final_size(expected, actual) {
                Ok(()) => JobPhase::Completed,
                Err(_) => JobPhase::Failed { code: ErrorCode::Unknown },
            },
            _ => p,
        },
        _ => p,
    }
}

fn failure_phase(idx: usize, code: ErrorCode) -> (r: JobPhase)
    ensures
        r == after_failure(idx, code),
{
    if code.is_retryable() && idx < usize::MAX {
        JobPhase::Next { idx: idx + 1, last: Some(code) }
    } else {
        JobPhase::Failed { code }
    }
}

/// The phases a run of events leads through, ending phase last.
pub open spec fn job_run(p: JobPhase, n: usize, evs: Seq<JobEvent>) -> JobPhase
    decreases evs.len(),
{
    if evs.len() == 0 {
        p
    } else {
        job_next(job_run(p, n, evs.drop_last()), n, evs.last())
    }
}

/// A step that moves candidate `i` from ranged to single-stream transfer.
pub open spec fn is_downgrade(before: JobPhase, after: JobPhase, i: usize) -> bool {
    before == (JobPhase::Transferring { idx: i, mode: TransferMode::Multipart })
        && after == (JobPhase::Transferring { idx: i, mode: TransferMode::Single })
}

/// How many times a run downgrades candidate `i`.
pub open spec fn downgrades(p: JobPhase, n: usize, evs: Seq<JobEvent>, i: usize) -> nat
    decreases evs.len(),
{
    if evs.len() == 0 {
        0
    } else {
        let before = job_run(p, n, evs.drop_last());
        downgrades(p, n, evs.drop_last(), i) + if is_downgrade(before, job_next(before, n, evs.last()), i) {
            1nat
        } else {
            0nat
        }
    }
}

/// The phase is past candidate `i`'s ranged transfer.
pub open spec fn past_ranged(p: JobPhase, i: usize) -> bool {
    match p {
        JobPhase::Next { idx, .. } => idx > i,
        JobPhase::Probing { idx } => idx > i,
        JobPhase::Transferring { idx, mode } => idx > i || (idx == i && mode == TransferMode::Single),
        _ => true,
    }
}

/// The phase has not yet reached candidate `i`'s transfer.
pub open spec fn before_transfer(p: JobPhase, i: usize) -> bool {
    match p {
        JobPhase::Next { idx, .. } => idx <= i,
        JobPhase::Probing { idx } => idx <= i,
        JobPhase::Transferring { idx, .. } => idx < i,
        _ => false,
    }
}

proof fn lemma_downgrades_bounded(p: JobPhase, n: usize, evs: Seq<JobEvent>, i: usize)
    requires
        before_transfer(p, i) || p == (JobPhase::Transferring { idx: i, mode: TransferMode::Multipart })
            || past_ranged(p, i),
    ensures
        downgrades(p, n, evs, i) <= 1,
        downgrades(p, n, evs, i) == 1 ==> past_ranged(job_run(p, n, evs), i),
        past_ranged(p, i) ==> downgrades(p, n, evs, i) == 0 && past_ranged(job_run(p, n, evs), i),
        downgrades(p, n, evs, i) == 0 && !past_ranged(job_run(p, n, evs), i) ==> (before_transfer(
            job_run(p, n, evs),
            i,
        ) || job_run(p, n, evs) == (JobPhase::Transferring { idx: i, mode: TransferMode::Multipart })
            || job_run(p, n, evs) == (JobPhase::Transferring { idx: i, mode: TransferMode::Single })),
    decreases evs.len(),
{
    if evs.len() > 0 {
        lemma_downgrades_bounded(p, n, evs.drop_last(), i);
    }
}

/// A job never downgrades the same candidate twice: in any run of events,
/// from any phase before that candidate's transfer, the ranged transfer of
/// candidate `i` falls back to a single stream at most once.
pub proof fn lemma_downgrade_once_per_candidate(p: JobPhase, n: usize, evs: Seq<JobEvent>, i: usize)
    requires
        before_transfer(p, i),
    ensures
        downgrades(p, n, evs, i) <= 1,
{
    lemma_downgrades_bounded(p, n, evs, i);
}

/// A changed remote ends the job for good: the probe's mismatch fails it with
/// `REMOTE_CHANGED`, and no later event leads to another attempt.
pub proof fn lemma_remote_change_ends_job(
    idx: usize,
    n: usize,
    m: Mismatch,
    total: Option<i64>,
    supports_ranges: Option<bool>,
    later: Seq<JobEvent>,
)
    ensures
        job_next(JobPhase::Probing { idx }, n, JobEvent::Probed { changed: Some(m), total, supports_ranges })
            == (JobPhase::Failed { code: ErrorCode::RemoteChanged }),
        job_run(JobPhase::Failed { code: ErrorCode::RemoteChanged }, n, later) == (JobPhase::Failed {
            code: ErrorCode::RemoteChanged,
        }),
    decreases later.len(),
{
    if later.len() > 0 {
        lemma_remote_change_ends_job(idx, n, m, total, supports_ranges, later.drop_last());
    }
}

/// The rename into place follows only a full transfer: a job enters
/// `Completed` only on a finished transfer whose size equals the length,
/// where the length is known.
pub proof fn lemma_completed_only_when_full(p: JobPhase, n: usize, ev: JobEvent)
    requires
        p != JobPhase::Completed,
        job_next(p, n, ev) == JobPhase::Completed,
    ensures
        p is Transferring,
        ev matches JobEvent::TransferDone { expected, actual } && (expected matches Some(len) ==> len
            == actual as int),
{
}

} // verus!
