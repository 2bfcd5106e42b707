use metra::messages::RESUME_CHUNK_SIZE_BYTES;
use metra::ranges::{durable_resume_offset, normalized_lane_count, split_ranges};

#[test]
fn durable_resume_offset_aligns_to_resume_chunk_boundary() {
    let offset = (3 * RESUME_CHUNK_SIZE_BYTES) + (RESUME_CHUNK_SIZE_BYTES / 2);
    let aligned = durable_resume_offset(offset, 0, 10 * RESUME_CHUNK_SIZE_BYTES);
    assert_eq!(aligned, 3 * RESUME_CHUNK_SIZE_BYTES);
}

#[test]
fn durable_resume_offset_preserves_lane_end_even_if_unaligned() {
    let range_end = (3 * RESUME_CHUNK_SIZE_BYTES) + 123;
    let aligned = durable_resume_offset(range_end, 0, range_end);
    assert_eq!(aligned, range_end);
}

#[test]
fn durable_resume_offset_clamps_to_lane_start_for_mid_chunk_ranges() {
    let range_start = (2 * RESUME_CHUNK_SIZE_BYTES) + 17;
    let offset = range_start + 512;
    let aligned = durable_resume_offset(offset, range_start, 6 * RESUME_CHUNK_SIZE_BYTES);
    assert_eq!(aligned, range_start);
}

#[test]
fn durable_resume_offset_at_the_edges() {
    let mib = RESUME_CHUNK_SIZE_BYTES;
    assert_eq!(durable_resume_offset(0, 5, 9), 5);
    assert_eq!(durable_resume_offset(u64::MAX, 5, 9), 9);
    assert_eq!(durable_resume_offset(8, 8, 8), 8);
    assert_eq!(durable_resume_offset(2 * mib, mib, 3 * mib), 2 * mib);
    assert_eq!(durable_resume_offset(2 * mib - 1, mib, 3 * mib), mib);
    let once = durable_resume_offset(2 * mib + 5, 7, 3 * mib);
    assert_eq!(durable_resume_offset(once, 7, 3 * mib), once);
}

#[test]
fn ranges_cover_the_file() {
    assert_eq!(split_ranges(10, 3), vec![(0, 4), (4, 7), (7, 10)]);
    assert_eq!(split_ranges(2, 3), vec![(0, 1), (1, 2), (2, 2)]);
    assert_eq!(split_ranges(0, 1), vec![(0, 0)]);
    assert_eq!(split_ranges(u64::MAX, 1), vec![(0, u64::MAX)]);
    for (size, lanes) in [(1u64, 1u32), (1_000, 7), (8 << 40, 64)] {
        let ranges = split_ranges(size, lanes);
        assert_eq!(ranges.len(), lanes as usize);
        assert_eq!(ranges[0].0, 0);
        assert_eq!(ranges[ranges.len() - 1].1, size);
        for pair in ranges.windows(2) {
            assert_eq!(pair[0].1, pair[1].0);
        }
    }
}

#[test]
fn lanes_are_never_more_than_bytes() {
    assert_eq!(normalized_lane_count(0, 100), 1);
    assert_eq!(normalized_lane_count(4, 100), 4);
    assert_eq!(normalized_lane_count(4, 3), 3);
    assert_eq!(normalized_lane_count(4, 0), 1);
    assert_eq!(normalized_lane_count(u32::MAX, u64::MAX), u32::MAX);
}
