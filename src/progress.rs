//! Byte accounting of a segmented transfer and the speed and ETA samples of
//! the progress stream.

use vstd::prelude::*;
use crate::model::{clone_opt, SegmentRowWithId, SegmentStatus};

verus! {

/// The bytes done over all segments.
pub open spec fn sum_done(s: Seq<SegmentRowWithId>) -> int
    decreases s.len(),
{
    if s.len() == 0 {
        0
    } else {
        sum_done(s.drop_last()) + s.last().bytes_done
    }
}

/// The progress of one segmented download: its segments and the download's
/// byte count, which is always the sum of the segments' counts.
pub struct SegmentProgress {
    pub segments: Vec<SegmentRowWithId>,
    pub bytes_downloaded: i64,
}

impl SegmentProgress {
    pub open spec fn wf(&self) -> bool {
        &&& self.bytes_downloaded == sum_done(self.segments@)
        &&& forall|i: int| 0 <= i < self.segments@.len() ==> #[trigger] self.segments@[i].bytes_done >= 0
    }

    /// Starts from stored segments; the download's count is their sum.
    pub fn new(segments: Vec<SegmentRowWithId>) -> (r: Option<SegmentProgress>)
        ensures
            r is Some <==> (forall|i: int| 0 <= i < segments@.len() ==> #[trigger] segments@[i].bytes_done >= 0)
                && sum_done(segments@) <= i64::MAX,
            r matches Some(p) ==> p.wf() && p.segments@ == segments@,
    {
        let mut total: i64 = 0;
        let mut i: usize = 0;
        while i < segments.len()
            invariant
                i <= segments@.len(),
                total == sum_done(segments@.subrange(0, i as int)),
                forall|k: int| 0 <= k < i ==> #[trigger] segments@[k].bytes_done >= 0,
                0 <= total,
            decreases segments@.len() - i,
        {
            proof {
                assert(segments@.subrange(0, i + 1).drop_last() =~= segments@.subrange(0, i as int));
            }
            let d = segments[i].bytes_done;
            if d < 0 {
                return None;
            }
            if total > i64::MAX - d {
                proof {
                    lemma_sum_prefix_le(segments@, i + 1);
                }
                return None;
            }
            total = total + d;
            i += 1;
        }
        assert(segments@.subrange(0, segments@.len() as int) =~= segments@);
        Some(SegmentProgress { segments, bytes_downloaded: total })
    }

    /// Records `n` more bytes written to segment `i`.
    pub fn record_chunk(&mut self, i: usize, n: i64)
        requires
            old(self).wf(),
            i < old(self).segments@.len(),
            0 <= n,
            old(self).bytes_downloaded + n <= i64::MAX,
        ensures
            final(self).wf(),
            final(self).bytes_downloaded == old(self).bytes_downloaded + n,
            final(self).segments@.len() == old(self).segments@.len(),
            final(self).segments@[i as int].bytes_done == old(self).segments@[i as int].bytes_done + n,
            final(self).segments@[i as int].status == old(self).segments@[i as int].status,
            forall|k: int|
                0 <= k < old(self).segments@.len() && k != i ==> #[trigger] final(self).segments@[k]
                    == old(self).segments@[k],
    {
        proof {
            lemma_sum_bound(self.segments@, i as int);
        }
        let ghost before = self.segments@;
        let s = &self.segments[i];
        let updated = SegmentRowWithId {
            id: s.id,
            range_start: s.range_start,
            range_end: s.range_end,
            bytes_done: s.bytes_done + n,
            status: s.status,
            last_error: clone_opt(&s.last_error),
        };
        self.segments.set(i, updated);
        self.bytes_downloaded = self.bytes_downloaded + n;
        proof {
            lemma_sum_update(before, i as int, updated);
        }
    }

    /// Sets the status of segment `i`; the counts stay as they are.
    pub fn set_status(&mut self, i: usize, status: SegmentStatus)
        requires
            old(self).wf(),
            i < old(self).segments@.len(),
        ensures
            final(self).wf(),
            final(self).bytes_downloaded == old(self).bytes_downloaded,
            final(self).segments@.len() == old(self).segments@.len(),
            final(self).segments@[i as int].status == status,
            final(self).segments@[i as int].bytes_done == old(self).segments@[i as int].bytes_done,
            forall|k: int|
                0 <= k < old(self).segments@.len() && k != i ==> #[trigger] final(self).segments@[k]
                    == old(self).segments@[k],
    {
        let ghost before = self.segments@;
        let s = &self.segments[i];
        let updated = SegmentRowWithId {
            id: s.id,
            range_start: s.range_start,
            range_end: s.range_end,
            bytes_done: s.bytes_done,
            status,
            last_error: clone_opt(&s.last_error),
        };
        self.segments.set(i, updated);
        proof {
            lemma_sum_update(before, i as int, updated);
        }
    }
}

/// Replacing one segment changes the sum by the difference of its counts.
proof fn lemma_sum_update(s: Seq<SegmentRowWithId>, i: int, x: SegmentRowWithId)
    requires
        0 <= i < s.len(),
    ensures
        sum_done(s.update(i, x)) == sum_done(s) - s[i].bytes_done + x.bytes_done,
    decreases s.len(),
{
    if i == s.len() - 1 {
        assert(s.update(i, x).drop_last() =~= s.drop_last());
    } else {
        assert(s.update(i, x).drop_last() =~= s.drop_last().update(i, x));
        lemma_sum_update(s.drop_last(), i, x);
    }
}

/// With no negative counts, one segment's count is at most the sum.
proof fn lemma_sum_bound(s: Seq<SegmentRowWithId>, i: int)
    requires
        0 <= i < s.len(),
        forall|k: int| 0 <= k < s.len() ==> #[trigger] s[k].bytes_done >= 0,
    ensures
        s[i].bytes_done <= sum_done(s),
        sum_done(s) >= 0,
    decreases s.len(),
{
    lemma_sum_nonneg(s.drop_last());
    if i < s.len() - 1 {
        lemma_sum_bound(s.drop_last(), i);
    }
}

proof fn lemma_sum_nonneg(s: Seq<SegmentRowWithId>)
    requires
        forall|k: int| 0 <= k < s.len() ==> #[trigger] s[k].bytes_done >= 0,
    ensures
        sum_done(s) >= 0,
    decreases s.len(),
{
    if s.len() > 0 {
        lemma_sum_nonneg(s.drop_last());
    }
}

/// A prefix's sum is at most the whole sum when no count is negative.
proof fn lemma_sum_prefix_le(s: Seq<SegmentRowWithId>, n: int)
    requires
        0 <= n <= s.len(),
        forall|k: int| 0 <= k < n ==> #[trigger] s[k].bytes_done >= 0,
    ensures
        (forall|k: int| 0 <= k < s.len() ==> #[trigger] s[k].bytes_done >= 0) ==> sum_done(
            s.subrange(0, n),
        ) <= sum_done(s),
    decreases s.len() - n,
{
    if n < s.len() {
        if forall|k: int| 0 <= k < s.len() ==> #[trigger] s[k].bytes_done >= 0 {
            lemma_sum_prefix_le(s, n + 1);
            assert(s.subrange(0, n + 1).drop_last() =~= s.subrange(0, n));
        }
    } else {
        assert(s.subrange(0, n) =~= s);
    }
}

/// The smoothed speed after one more sample (exponential average with
/// weight 1/5 on the new sample), in bytes per second, at most `u64::MAX`.
pub open spec fn ewma_next(prev: int, instant: int) -> int {
    let v = (4 * prev + instant) / 5;
    if v > u64::MAX {
        u64::MAX as int
    } else {
        v
    }
}

/// The instantaneous speed over one interval, in bytes per second.
pub open spec fn instant_bps(last_bytes: int, bytes: int, interval_ms: int) -> int {
    if bytes > last_bytes {
        (bytes - last_bytes) * 1000 / interval_ms
    } else {
        0
    }
}

/// Seconds left at `speed`, when the length is known, not yet reached, and
/// the speed above one byte per second.
pub open spec fn eta(total: Option<i64>, bytes: int, speed: int) -> Option<int> {
    match total {
        Some(t) => if t > 0 && speed > 1 && bytes >= 0 && t > bytes {
            Some((t - bytes) / speed)
        } else {
            None
        },
        None => None,
    }
}

/// One progress sample of a job.
#[derive(Debug, Clone, Copy, PartialEq, Eq, Structural)]
pub struct SpeedSample {
    pub speed_bps: u64,
    pub eta_seconds: Option<u64>,
}

/// The speed and ETA after an interval of `interval_ms` in which the byte
/// count went from `last_bytes` to `bytes`.
pub fn progress_sample(prev_speed_bps: u64, last_bytes: i64, bytes: i64, total: Option<i64>, interval_ms: u64) -> (r: SpeedSample)
    requires
        interval_ms > 0,
    ensures
        r.speed_bps == ewma_next(
            prev_speed_bps as int,
            instant_bps(last_bytes as int, bytes as int, interval_ms as int),
        ),
        match r.eta_seconds {
            Some(e) => eta(total, bytes as int, r.speed_bps as int) == Some(e as int),
            None => eta(total, bytes as int, r.speed_bps as int) is None,
        },
{
    let inst: u128 = if bytes > last_bytes {
        let delta = (bytes as i128 - last_bytes as i128) as u128;
        delta * 1000 / (interval_ms as u128)
    } else {
        0
    };
    let v = (4 * (prev_speed_bps as u128) + inst) / 5;
    let speed: u64 = if v > u64::MAX as u128 {
        u64::MAX
    } else {
        v as u64
    };
    let eta_seconds = match total {
        Some(t) => if t > 0 && speed > 1 && bytes >= 0 && t > bytes {
            Some(((t - bytes) as u64) / speed)
        } else {
            None
        },
        None => None,
    };
    SpeedSample { speed_bps: speed, eta_seconds }
}

} // verus!
