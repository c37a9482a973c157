use zdmr::model::SegmentStatus;
use zdmr::planner::{plan_segments, segment_count, use_multipart};

const MIB: i64 = 1024 * 1024;

#[test]
fn multipart_threshold_boundary() {
    assert!(!use_multipart(Some(32 * MIB - 1), Some(true)));
    assert!(use_multipart(Some(32 * MIB), Some(true)));
    assert!(!use_multipart(Some(32 * MIB), Some(false)));
    assert!(!use_multipart(Some(32 * MIB), None));
    assert!(!use_multipart(None, Some(true)));
}

#[test]
fn single_stream_for_small_resource_without_ranges() {
    assert!(!use_multipart(Some(10_485_760), Some(false)));
}

#[test]
fn planner_fast_warmup_gives_eight_segments() {
    let segs = plan_segments(134_217_728, 25 * MIB as u64);
    assert_eq!(segs.len(), 8);
    for (i, s) in segs.iter().enumerate() {
        assert_eq!(s.range_start, i as i64 * 16 * MIB);
        assert_eq!(s.range_end, (i as i64 + 1) * 16 * MIB - 1);
        assert_eq!(s.bytes_done, 0);
        assert_eq!(s.status, SegmentStatus::Active);
    }
    assert_eq!(segs[7].range_end, 134_217_727);
}

#[test]
fn planner_counts_by_warmup_tier() {
    let len = 64 * MIB;
    assert_eq!(segment_count(len, 0), 4);
    assert_eq!(segment_count(len, 1), 4);
    assert_eq!(segment_count(len, 3 * MIB as u64), 4);
    assert_eq!(segment_count(len, 8 * MIB as u64), 6);
    assert_eq!(segment_count(len, 20 * MIB as u64), 8);
    assert_eq!(segment_count(len, 20 * MIB as u64 - 1), 6);
    assert_eq!(segment_count(1024 * MIB, 0), 16);
    assert_eq!(segment_count(1024 * MIB, 9 * MIB as u64), 12);
    assert_eq!(segment_count(1024 * MIB, 1), 4);
    assert_eq!(segment_count(32 * MIB, 0), 2);
}

#[test]
fn planned_segments_tile_the_resource() {
    let len = 100 * MIB + 7;
    let segs = plan_segments(len, 0);
    assert_eq!(segs.len(), 7);
    assert_eq!(segs[0].range_start, 0);
    for w in segs.windows(2) {
        assert_eq!(w[0].range_end + 1, w[1].range_start);
    }
    assert_eq!(segs.last().unwrap().range_end, len - 1);
    let total: i64 = segs.iter().map(|s| s.range_end - s.range_start + 1).sum();
    assert_eq!(total, len);
}

#[test]
fn last_segment_absorbs_remainder_when_count_is_capped() {
    let len = 128 * MIB;
    let segs = plan_segments(len, 1);
    assert_eq!(segs.len(), 4);
    assert_eq!(segs[3].range_start, 48 * MIB);
    assert_eq!(segs[3].range_end, len - 1);
}

#[test]
fn fast_warmup_never_plans_past_the_end() {
    let segs = plan_segments(32 * MIB, 25 * MIB as u64);
    assert_eq!(segs.len(), 2);
    assert_eq!(segs[0].range_start, 0);
    assert_eq!(segs[0].range_end, 16 * MIB - 1);
    assert_eq!(segs[1].range_start, 16 * MIB);
    assert_eq!(segs[1].range_end, 32 * MIB - 1);
    for len in [32 * MIB, 33 * MIB, 64 * MIB - 1, 100 * MIB + 7] {
        for bps in [0u64, 1, 3 * MIB as u64, 8 * MIB as u64, 25 * MIB as u64] {
            let segs = plan_segments(len, bps);
            assert_eq!(segs[0].range_start, 0);
            assert_eq!(segs.last().unwrap().range_end, len - 1);
            for w in segs.windows(2) {
                assert_eq!(w[0].range_end + 1, w[1].range_start);
            }
            for s in &segs {
                assert!(s.range_start <= s.range_end);
            }
        }
    }
    assert_eq!(plan_segments(5 * MIB, 25 * MIB as u64).len(), 1);
}
