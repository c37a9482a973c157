//! Choosing between one stream and ranged parallel segments, and planning them.

use vstd::prelude::*;
use crate::model::{SegmentRow, SegmentStatus};

verus! {

pub const MIB: i64 = 1048576;

/// Size of every planned segment but the last.
pub const SEGMENT_SIZE: i64 = 16777216;

/// Smallest content length that is split into segments.
pub const MULTIPART_THRESHOLD: i64 = 33554432;

/// Largest content length that the planner takes, so that the arithmetic fits.
pub const MAX_PLANNED_LENGTH: i64 = 0x7fff_ffff_feff_ffff;

/// A transfer is split when its length is known, at least the threshold, and
/// the server advertised range support.
pub open spec fn multipart_chosen(total: Option<i64>, supports_ranges: Option<bool>) -> bool {
    &&& total matches Some(len) && len >= MULTIPART_THRESHOLD
    &&& supports_ranges == Some(true)
}

pub open spec fn ceil_div(a: int, b: int) -> int {
    (a + b - 1) / b
}

pub open spec fn clamp(x: int, lo: int, hi: int) -> int {
    if x < lo {
        lo
    } else if x > hi {
        hi
    } else {
        x
    }
}

pub open spec fn min(a: int, b: int) -> int {
    if a <= b {
        a
    } else {
        b
    }
}

pub open spec fn max(a: int, b: int) -> int {
    if a >= b {
        a
    } else {
        b
    }
}

/// One segment per 16 MiB, at least 2 and at most 16.
pub open spec fn base_count(len: int) -> int {
    clamp(ceil_div(len, SEGMENT_SIZE as int), 2, 16)
}

/// The segment count once the warmup throughput (bytes per second, 0 when the
/// warmup failed) is taken into account.
pub open spec fn effective_count(len: int, warmup_bps: int) -> int {
    let base = base_count(len);
    if warmup_bps >= 20 * MIB {
        min(max(base, 8), 16)
    } else if warmup_bps >= 8 * MIB {
        min(max(base, 6), 12)
    } else if warmup_bps >= 3 * MIB {
        min(max(base, 4), 8)
    } else if warmup_bps > 0 {
        min(base, 4)
    } else {
        base
    }
}

/// The planned row `i` of `count` rows for a resource of `len` bytes.
pub open spec fn planned_row(s: SegmentRow, len: int, count: int, i: int) -> bool {
    &&& s.range_start == i * SEGMENT_SIZE
    &&& s.range_end == if i == count - 1 {
        len - 1
    } else {
        (i + 1) * SEGMENT_SIZE - 1
    }
    &&& s.bytes_done == 0
    &&& s.status == SegmentStatus::Active
    &&& s.last_error is None
}

/// The rows are contiguous, in order, and together cover `0..len` exactly.
pub open spec fn tiles(s: Seq<SegmentRow>, len: int) -> bool {
    &&& s.len() > 0
    &&& s[0].range_start == 0
    &&& s.last().range_end == len - 1
    &&& forall|i: int| 0 <= i < s.len() ==> #[trigger] s[i].range_start <= s[i].range_end
    &&& forall|i: int| 0 <= i < s.len() - 1 ==> #[trigger] s[i].range_end + 1 == s[i + 1].range_start
}

/// Whether the transfer is split into segments.
pub fn use_multipart(total: Option<i64>, supports_ranges: Option<bool>) -> (r: bool)
    ensures
        r == multipart_chosen(total, supports_ranges),
{
    match (total, supports_ranges) {
        (Some(len), Some(true)) => len >= MULTIPART_THRESHOLD,
        _ => false,
    }
}

fn min_i64(a: i64, b: i64) -> (r: i64)
    ensures
        r == min(a as int, b as int),
{
    if a <= b {
        a
    } else {
        b
    }
}

fn max_i64(a: i64, b: i64) -> (r: i64)
    ensures
        r == max(a as int, b as int),
{
    if a >= b {
        a
    } else {
        b
    }
}

/// The warmup-driven segment count for a resource of `content_length` bytes,
/// before the cap at the number of 16 MiB blocks (see `planned_count`).
pub fn segment_count(content_length: i64, warmup_bps: u64) -> (r: i64)
    requires
        0 < content_length <= MAX_PLANNED_LENGTH,
    ensures
        r == effective_count(content_length as int, warmup_bps as int),
        2 <= r <= 16,
{
    let whole = (content_length + SEGMENT_SIZE - 1) / SEGMENT_SIZE;
    let base = if whole < 2 {
        2
    } else if whole > 16 {
        16
    } else {
        whole
    };
    if warmup_bps >= 20 * (MIB as u64) {
        min_i64(max_i64(base, 8), 16)
    } else if warmup_bps >= 8 * (MIB as u64) {
        min_i64(max_i64(base, 6), 12)
    } else if warmup_bps >= 3 * (MIB as u64) {
        min_i64(max_i64(base, 4), 8)
    } else if warmup_bps > 0 {
        min_i64(base, 4)
    } else {
        base
    }
}

/// Warmup throughput in bytes per second: `bytes` read in `elapsed_us`
/// microseconds; none when no time elapsed.
pub fn throughput_bps(bytes: u64, elapsed_us: u64) -> (r: Option<u64>)
    ensures
        elapsed_us == 0 ==> r is None,
        elapsed_us > 0 ==> r == Some(
            min(bytes as int * 1_000_000 / elapsed_us as int, u64::MAX as int) as u64,
        ),
{
    if elapsed_us == 0 {
        return None;
    }
    let v: u128 = (bytes as u128) * 1_000_000 / (elapsed_us as u128);
    if v > u64::MAX as u128 {
        Some(u64::MAX)
    } else {
        Some(v as u64)
    }
}

/// The number of rows planned: the warmup-driven count, but never more rows
/// than there are 16 MiB blocks in the resource.
pub open spec fn planned_count(len: int, warmup_bps: int) -> int {
    min(effective_count(len, warmup_bps), ceil_div(len, SEGMENT_SIZE as int))
}

/// Plans the segments of a resource of `content_length` bytes: each 16 MiB
/// long from offset 0, the last one ending at the last byte, none started;
/// together they tile the whole resource.
pub fn plan_segments(content_length: i64, warmup_bps: u64) -> (r: Vec<SegmentRow>)
    requires
        0 < content_length <= MAX_PLANNED_LENGTH,
    ensures
        r@.len() == planned_count(content_length as int, warmup_bps as int),
        forall|i: int|
            0 <= i < r@.len() ==> planned_row(#[trigger] r@[i], content_length as int, r@.len() as int, i),
        tiles(r@, content_length as int),
{
    let wanted = segment_count(content_length, warmup_bps);
    let blocks = (content_length + SEGMENT_SIZE - 1) / SEGMENT_SIZE;
    let count = min_i64(wanted, blocks);
    assert(blocks as int == ceil_div(content_length as int, SEGMENT_SIZE as int));
    assert(blocks >= 1) by (nonlinear_arith)
        requires
            content_length > 0,
            blocks as int == (content_length as int + 16777216 - 1) / 16777216,
    ;
    let mut segs: Vec<SegmentRow> = Vec::new();
    let mut i: i64 = 0;
    while i < count
        invariant
            0 <= i <= count <= 16,
            1 <= count,
            0 < content_length <= MAX_PLANNED_LENGTH,
            count == planned_count(content_length as int, warmup_bps as int),
            segs@.len() == i,
            forall|k: int| 0 <= k < i ==> planned_row(#[trigger] segs@[k], content_length as int, count as int, k),
        decreases count - i,
    {
        let start = i * SEGMENT_SIZE;
        let end = if i == count - 1 {
            content_length - 1
        } else {
            (i + 1) * SEGMENT_SIZE - 1
        };
        segs.push(SegmentRow {
            range_start: start,
            range_end: end,
            bytes_done: 0,
            status: SegmentStatus::Active,
            last_error: None,
        });
        i += 1;
    }
    proof {
        let len = content_length as int;
        {
            assert((count - 1) * SEGMENT_SIZE < len) by (nonlinear_arith)
                requires
                    count <= (len + SEGMENT_SIZE - 1) / (SEGMENT_SIZE as int),
                    count >= 1,
                    SEGMENT_SIZE == 16777216,
            ;
            assert forall|k: int| 0 <= k < segs@.len() implies #[trigger] segs@[k].range_start
                <= segs@[k].range_end by {
                assert(planned_row(segs@[k], len, count as int, k));
                if k < count - 1 {
                    assert(k * SEGMENT_SIZE <= (k + 1) * SEGMENT_SIZE - 1) by (nonlinear_arith);
                } else {
                    assert(k * SEGMENT_SIZE == (count - 1) * SEGMENT_SIZE);
                }
            }
            assert forall|k: int| 0 <= k < segs@.len() - 1 implies #[trigger] segs@[k].range_end + 1
                == segs@[k + 1].range_start by {
                assert(planned_row(segs@[k], len, count as int, k));
                assert(planned_row(segs@[k + 1], len, count as int, k + 1));
            }
            assert(planned_row(segs@[0], len, count as int, 0));
            assert(planned_row(segs@[count - 1], len, count as int, count - 1));
        }
    }
    segs
}

/// Byte `b` lies in one of the rows.
pub open spec fn in_some_row(s: Seq<SegmentRow>, b: int) -> bool {
    exists|k: int| 0 <= k < s.len() && #[trigger] s[k].range_start <= b && b <= s[k].range_end
}

proof fn lemma_tiles_ordered(s: Seq<SegmentRow>, len: int, i: int, j: int)
    requires
        tiles(s, len),
        0 <= i < j < s.len(),
    ensures
        s[i].range_end < s[j].range_start,
    decreases j - i,
{
    assert(s[i].range_end + 1 == s[i + 1].range_start);
    if j > i + 1 {
        assert(s[i + 1].range_start <= s[i + 1].range_end);
        lemma_tiles_ordered(s, len, i + 1, j);
    }
}

proof fn lemma_tiles_cover_from(s: Seq<SegmentRow>, len: int, i: int, b: int)
    requires
        tiles(s, len),
        0 <= i < s.len(),
        s[i].range_start <= b < len,
    ensures
        in_some_row(s, b),
    decreases s.len() - i,
{
    if b <= s[i].range_end {
        assert(s[i].range_start <= b <= s[i].range_end);
    } else {
        assert(i < s.len() - 1);
        assert(s[i].range_end + 1 == s[i + 1].range_start);
        lemma_tiles_cover_from(s, len, i + 1, b);
    }
}

/// Tiling rows partition the resource: no two share a byte, and every byte
/// of `0..len` lies in one of them.
pub proof fn lemma_tiles_partition(s: Seq<SegmentRow>, len: int)
    requires
        tiles(s, len),
    ensures
        forall|i: int, j: int|
            0 <= i < s.len() && 0 <= j < s.len() && i != j ==> #[trigger] s[i].range_end < #[trigger] s[j].range_start
                || s[j].range_end < s[i].range_start,
        forall|b: int| 0 <= b < len ==> #[trigger] in_some_row(s, b),
        forall|k: int| 0 <= k < s.len() ==> 0 <= #[trigger] s[k].range_start && s[k].range_end < len,
{
    assert forall|i: int, j: int|
        0 <= i < s.len() && 0 <= j < s.len() && i != j implies #[trigger] s[i].range_end < #[trigger] s[j].range_start
            || s[j].range_end < s[i].range_start by {
        if i < j {
            lemma_tiles_ordered(s, len, i, j);
        } else {
            lemma_tiles_ordered(s, len, j, i);
        }
    }
    assert forall|b: int| 0 <= b < len implies #[trigger] in_some_row(s, b) by {
        lemma_tiles_cover_from(s, len, 0, b);
    }
    assert forall|k: int| 0 <= k < s.len() implies 0 <= #[trigger] s[k].range_start && s[k].range_end < len by {
        if k > 0 {
            lemma_tiles_ordered(s, len, 0, k);
        }
        if k < s.len() - 1 {
            lemma_tiles_ordered(s, len, k, s.len() - 1);
        }
    }
}

} // verus!
