//! Lane ranges: how a file is cut into lanes, and where a lane may resume.

use crate::messages::RESUME_CHUNK_SIZE_BYTES;
use vstd::prelude::*;

verus! {

/// Where the lane `i` of `lanes` begins in a file of `size` bytes: every lane has `size / lanes`
/// bytes, and the first `size % lanes` of them have one more.
pub open spec fn lane_cut(size: nat, lanes: nat, i: nat) -> nat {
    let extra = size % lanes;
    i * (size / lanes) + if i < extra {
        i
    } else {
        extra
    }
}

/// The ranges of all lanes, first lane first.
pub open spec fn lane_ranges(size: nat, lanes: nat) -> Seq<(u64, u64)> {
    Seq::new(lanes, |i: int| (lane_cut(size, lanes, i as nat) as u64, lane_cut(size, lanes, (i + 1) as nat) as u64))
}

/// The cuts begin at zero, end at the size, and grow by the length of a lane.
pub proof fn lane_cuts_partition(size: nat, lanes: nat, i: nat)
    requires
        lanes > 0,
        i < lanes,
    ensures
        lane_cut(size, lanes, 0) == 0,
        lane_cut(size, lanes, lanes) == size,
        lane_cut(size, lanes, (i + 1) as nat) == lane_cut(size, lanes, i) + size / lanes + (if i
            < size % lanes {
            1nat
        } else {
            0nat
        }),
        lane_cut(size, lanes, (i + 1) as nat) <= size,
{
    let base = size / lanes;
    let extra = size % lanes;
    assert(size == lanes * base + extra) by (nonlinear_arith)
        requires
            lanes > 0,
            base == size / lanes,
            extra == size % lanes,
    ;
    assert(extra < lanes) by (nonlinear_arith)
        requires
            lanes > 0,
            extra == size % lanes,
    ;
    assert((i + 1) * base == i * base + base) by (nonlinear_arith);
    assert(0 * base == 0);
    assert((i + 1) * base <= lanes * base) by (nonlinear_arith)
        requires
            i + 1 <= lanes,
    ;
}

/// Whether ranges cover a file without a gap or an overlap: the first begins at zero, each begins where
/// the one before it ends, the last ends at the size, and no two lengths differ by more than one byte.
/// Where there are at least as many bytes as lanes, no range is empty.
pub open spec fn is_partition(ranges: Seq<(u64, u64)>, size: u64, lanes: u32) -> bool {
    &&& ranges.len() == lanes
    &&& ranges[0].0 == 0
    &&& ranges[lanes - 1].1 == size
    &&& forall|i: int| 0 < i < lanes ==> (#[trigger] ranges[i]).0 == ranges[i - 1].1
    &&& forall|i: int|
        0 <= i < lanes ==> {
            &&& (#[trigger] ranges[i]).0 <= ranges[i].1 <= size
            &&& ranges[i].1 - ranges[i].0 == size / lanes as u64 + (if i < size % lanes as u64 {
                1int
            } else {
                0int
            })
            &&& size >= lanes ==> ranges[i].0 < ranges[i].1
        }
}

/// The ranges of a file cover it without a gap or an overlap, in lengths that differ by at most one
/// byte.
pub proof fn lane_ranges_partition_the_file(size: u64, lanes: u32)
    requires
        lanes > 0,
    ensures
        is_partition(lane_ranges(size as nat, lanes as nat), size, lanes),
{
    let ranges = lane_ranges(size as nat, lanes as nat);
    assert forall|i: int| 0 <= i < lanes implies {
        &&& (#[trigger] ranges[i]).0 <= ranges[i].1 <= size
        &&& ranges[i].1 - ranges[i].0 == size / lanes as u64 + (if i < size % lanes as u64 {
            1int
        } else {
            0int
        })
        &&& size >= lanes ==> ranges[i].0 < ranges[i].1
    } by {
        lane_cuts_partition(size as nat, lanes as nat, i as nat);
        if size >= lanes {
            assert(size as nat / lanes as nat >= 1) by (nonlinear_arith)
                requires
                    size >= lanes,
                    lanes > 0,
            ;
        }
    }
    lane_cuts_partition(size as nat, lanes as nat, (lanes - 1) as nat);
}

/// The ranges of the lanes of a file.
pub fn split_ranges(file_size_bytes: u64, lanes: u32) -> (r: Vec<(u64, u64)>)
    requires
        lanes > 0,
    ensures
        r@ == lane_ranges(file_size_bytes as nat, lanes as nat),
        is_partition(r@, file_size_bytes, lanes),
{
    let base: u64 = file_size_bytes / lanes as u64;
    let remainder: u64 = file_size_bytes % lanes as u64;
    let mut ranges: Vec<(u64, u64)> = Vec::new();
    let mut start: u64 = 0;
    proof {
        lane_cuts_partition(file_size_bytes as nat, lanes as nat, 0);
        lane_ranges_partition_the_file(file_size_bytes, lanes);
    }
    for lane in 0..lanes
        invariant
            lanes > 0,
            base == file_size_bytes / lanes as u64,
            remainder == file_size_bytes % lanes as u64,
            start == lane_cut(file_size_bytes as nat, lanes as nat, lane as nat),
            ranges@ == lane_ranges(file_size_bytes as nat, lanes as nat).take(lane as int),
    {
        proof {
            lane_cuts_partition(file_size_bytes as nat, lanes as nat, lane as nat);
        }
        let extra: u64 = if (lane as u64) < remainder {
            1
        } else {
            0
        };
        let end: u64 = start + (base + extra);
        ranges.push((start, end));
        start = end;
    }
    ranges
}

/// The number of lanes to use: at least one, and no more than the file has bytes.
pub open spec fn usable_lanes(lanes: u32, file_size_bytes: u64) -> u32 {
    let wanted = if lanes == 0 {
        1u32
    } else {
        lanes
    };
    if file_size_bytes == 0 {
        1u32
    } else if file_size_bytes < wanted {
        file_size_bytes as u32
    } else {
        wanted
    }
}

pub fn normalized_lane_count(lanes: u32, file_size_bytes: u64) -> (r: u32)
    ensures
        r == usable_lanes(lanes, file_size_bytes),
        r >= 1,
{
    let wanted: u32 = if lanes == 0 {
        1
    } else {
        lanes
    };
    if file_size_bytes == 0 {
        1
    } else if file_size_bytes < wanted as u64 {
        file_size_bytes as u32
    } else {
        wanted
    }
}

/// With a usable number of lanes, every lane of a file that is not empty has bytes to carry.
pub proof fn usable_lanes_are_never_empty(lanes: u32, file_size_bytes: u64, i: int)
    requires
        file_size_bytes > 0,
        0 <= i < usable_lanes(lanes, file_size_bytes),
    ensures
        ({
            let ranges = lane_ranges(
                file_size_bytes as nat,
                usable_lanes(lanes, file_size_bytes) as nat,
            );
            ranges[i].0 < ranges[i].1 <= file_size_bytes
        }),
{
    lane_ranges_partition_the_file(file_size_bytes, usable_lanes(lanes, file_size_bytes));
    let ranges = lane_ranges(file_size_bytes as nat, usable_lanes(lanes, file_size_bytes) as nat);
    assert(ranges[i].0 < ranges[i].1);
}

/// The value of `range_start..=range_end_exclusive` that is nearest to `offset`.
pub open spec fn clamped_offset(offset: int, range_start: int, range_end_exclusive: int) -> int {
    if offset < range_start {
        range_start
    } else if offset > range_end_exclusive {
        range_end_exclusive
    } else {
        offset
    }
}

/// The largest offset, not past `offset`, at which a lane may resume: the end of its range, a
/// multiple of the resume chunk size inside it, or its start.
pub open spec fn durable_offset(offset: u64, range_start: u64, range_end_exclusive: u64) -> u64 {
    let clamped = clamped_offset(offset as int, range_start as int, range_end_exclusive as int);
    let aligned = clamped - clamped % RESUME_CHUNK_SIZE_BYTES as int;
    if clamped == range_end_exclusive {
        range_end_exclusive
    } else if aligned < range_start {
        range_start
    } else {
        aligned as u64
    }
}

pub fn durable_resume_offset(offset: u64, range_start: u64, range_end_exclusive: u64) -> (r: u64)
    requires
        range_start <= range_end_exclusive,
    ensures
        r == durable_offset(offset, range_start, range_end_exclusive),
{
    let clamped: u64 = if offset < range_start {
        range_start
    } else if offset > range_end_exclusive {
        range_end_exclusive
    } else {
        offset
    };
    if clamped >= range_end_exclusive {
        return range_end_exclusive;
    }
    let aligned: u64 = clamped - clamped % RESUME_CHUNK_SIZE_BYTES;
    if aligned < range_start {
        range_start
    } else {
        aligned
    }
}

/// A durable offset lies in its range, is the end, the start or a chunk boundary, never lies past
/// an offset that is itself in the range, and loses less than one chunk of it.
pub proof fn durable_offset_is_on_a_boundary(
    offset: u64,
    range_start: u64,
    range_end_exclusive: u64,
)
    requires
        range_start <= range_end_exclusive,
    ensures
        ({
            let durable = durable_offset(offset, range_start, range_end_exclusive);
            &&& range_start <= durable <= range_end_exclusive
            &&& durable == range_end_exclusive || durable == range_start || durable
                % RESUME_CHUNK_SIZE_BYTES == 0
            &&& offset >= range_start ==> durable <= offset
            &&& offset <= range_end_exclusive ==> offset - durable < RESUME_CHUNK_SIZE_BYTES
            &&& durable == range_end_exclusive <==> offset >= range_end_exclusive || range_start
                == range_end_exclusive
        }),
{
}

/// A durable offset is its own durable offset.
pub proof fn durable_offset_is_idempotent(offset: u64, range_start: u64, range_end_exclusive: u64)
    requires
        range_start <= range_end_exclusive,
    ensures
        durable_offset(
            durable_offset(offset, range_start, range_end_exclusive),
            range_start,
            range_end_exclusive,
        ) == durable_offset(offset, range_start, range_end_exclusive),
{
}

/// More written bytes never give an earlier durable offset.
pub proof fn durable_offset_is_monotone(a: u64, b: u64, range_start: u64, range_end_exclusive: u64)
    requires
        range_start <= range_end_exclusive,
        a <= b,
    ensures
        durable_offset(a, range_start, range_end_exclusive) <= durable_offset(
            b,
            range_start,
            range_end_exclusive,
        ),
{
}

/// A durable offset is a place where the lane may resume, and the last one that is written: it is
/// the start of the range, the end or a chunk boundary between them, and no such place lies behind it
/// up to `offset`. Before the start of the range nothing is written.
pub proof fn durable_offset_is_the_last_resume_point(
    offset: u64,
    range_start: u64,
    range_end_exclusive: u64,
    point: u64,
)
    requires
        range_start <= point <= range_end_exclusive,
        point == range_start || point == range_end_exclusive || point % RESUME_CHUNK_SIZE_BYTES == 0,
    ensures
        ({
            let durable = durable_offset(offset, range_start, range_end_exclusive);
            &&& range_start <= durable <= range_end_exclusive
            &&& durable == range_start || durable == range_end_exclusive || durable
                % RESUME_CHUNK_SIZE_BYTES == 0
            &&& durable <= offset || durable == range_start
            &&& point <= offset ==> point <= durable
        }),
{
}

/// Lanes follow one another from the first byte of a file to its last, and share its bytes evenly: a
/// lane is as long as any behind it or one byte longer.
pub proof fn lanes_share_a_file_evenly(size: u64, lanes: u32, i: int, j: int)
    requires
        0 <= i < j < lanes,
    ensures
        ({
            let ranges = lane_ranges(size as nat, lanes as nat);
            &&& ranges.len() == lanes
            &&& ranges[0].0 == 0
            &&& ranges[lanes - 1].1 == size
            &&& ranges[i].0 <= ranges[i].1
            &&& j == i + 1 ==> ranges[i].1 == ranges[j].0
            &&& 0 <= (ranges[i].1 - ranges[i].0) - (ranges[j].1 - ranges[j].0) <= 1
        }),
{
    lane_cuts_partition(size as nat, lanes as nat, i as nat);
    lane_cuts_partition(size as nat, lanes as nat, j as nat);
    lane_cuts_partition(size as nat, lanes as nat, (lanes - 1) as nat);
}

/// As many lanes are used as were asked for and as the file has bytes, whichever is less; but one at
/// least.
pub proof fn usable_lanes_are_as_many_as_can_be(lanes: u32, file_size_bytes: u64, n: u32)
    ensures
        ({
            let usable = usable_lanes(lanes, file_size_bytes);
            &&& usable >= 1
            &&& usable == 1 || usable <= lanes && usable <= file_size_bytes
            &&& n <= lanes && n <= file_size_bytes ==> n <= usable
        }),
{
}

} // verus!
