//! The checkpoint of a striped transfer: how far each lane has durably come.

use crate::messages::RESUME_CHUNK_SIZE_BYTES;
use crate::ranges;
use crate::ranges::{durable_resume_offset, split_ranges};
use crate::text;
use crate::text::{push_decimal, with_number, with_two_numbers};
use vstd::prelude::*;
use vstd::string::*;

verus! {

/// How far one lane has come. The lane resumes at `offset`.
#[derive(Debug, Clone, Copy, PartialEq, Eq, Structural)]
pub struct LaneCheckpoint {
    pub lane_index: u32,
    pub range_start: u64,
    pub range_end_exclusive: u64,
    pub offset: u64,
}

/// How far all lanes of a transfer have come.
#[derive(Debug)]
pub struct TransferCheckpoint {
    pub transfer_id: u128,
    pub file_size_bytes: u64,
    pub total_lanes: u32,
    pub lanes: Vec<LaneCheckpoint>,
}

/// Why a checkpoint does not fit a lane stream.
#[derive(Debug, Clone, Copy, PartialEq, Eq, Structural)]
pub enum CheckpointFault {
    FileSize { checkpoint_size: u64, transfer_size: u64 },
    LaneCount { checkpoint_lanes: u32, stream_lanes: u32 },
    LaneMissing { lane_index: u32 },
    LaneRange {
        lane_index: u32,
        expected_start: u64,
        expected_end: u64,
        found_start: u64,
        found_end: u64,
    },
    LaneUnknown { lane_index: u32 },
}

impl CheckpointFault {
    /// The fault in words.
    pub open spec fn text(self) -> Seq<char> {
        match self {
            CheckpointFault::FileSize { checkpoint_size, transfer_size } =>
                "checkpoint file size mismatch: "@ + text::decimal(checkpoint_size as nat) + " != "@
                    + text::decimal(transfer_size as nat),
            CheckpointFault::LaneCount { checkpoint_lanes, stream_lanes } =>
                "checkpoint lane count mismatch: "@ + text::decimal(checkpoint_lanes as nat) + " != "@
                    + text::decimal(stream_lanes as nat),
            CheckpointFault::LaneMissing { lane_index } => "checkpoint missing lane "@
                + text::decimal(lane_index as nat),
            CheckpointFault::LaneRange {
                lane_index,
                expected_start,
                expected_end,
                found_start,
                found_end,
            } => "checkpoint lane range mismatch: lane "@ + text::decimal(lane_index as nat)
                + " expected "@ + text::decimal(expected_start as nat) + ".."@ + text::decimal(
                expected_end as nat,
            ) + " found "@ + text::decimal(found_start as nat) + ".."@ + text::decimal(
                found_end as nat,
            ),
            CheckpointFault::LaneUnknown { lane_index } => "missing lane "@ + text::decimal(
                lane_index as nat,
            ) + " in checkpoint"@,
        }
    }

    pub fn message(&self) -> (r: String)
        ensures
            r@ == self.text(),
    {
        match *self {
            CheckpointFault::FileSize { checkpoint_size, transfer_size } => with_two_numbers(
                "checkpoint file size mismatch: ",
                checkpoint_size,
                " != ",
                transfer_size,
            ),
            CheckpointFault::LaneCount { checkpoint_lanes, stream_lanes } => with_two_numbers(
                "checkpoint lane count mismatch: ",
                checkpoint_lanes as u64,
                " != ",
                stream_lanes as u64,
            ),
            CheckpointFault::LaneMissing { lane_index } => with_number(
                "checkpoint missing lane ",
                lane_index as u64,
            ),
            CheckpointFault::LaneRange {
                lane_index,
                expected_start,
                expected_end,
                found_start,
                found_end,
            } => {
                let mut message = with_two_numbers(
                    "checkpoint lane range mismatch: lane ",
                    lane_index as u64,
                    " expected ",
                    expected_start,
                );
                message.append("..");
                push_decimal(&mut message, expected_end);
                message.append(" found ");
                push_decimal(&mut message, found_start);
                message.append("..");
                push_decimal(&mut message, found_end);
                message
            },
            CheckpointFault::LaneUnknown { lane_index } => {
                let mut message = with_number("missing lane ", lane_index as u64);
                message.append(" in checkpoint");
                message
            },
        }
    }
}

/// The bytes that a lane has carried.
pub open spec fn lane_progress(lane: LaneCheckpoint) -> nat {
    if lane.offset > lane.range_start {
        (lane.offset - lane.range_start) as nat
    } else {
        0
    }
}

/// The bytes that all lanes have carried.
pub open spec fn total_progress(lanes: Seq<LaneCheckpoint>) -> nat
    decreases lanes.len(),
{
    if lanes.len() == 0 {
        0
    } else {
        total_progress(lanes.drop_last()) + lane_progress(lanes.last())
    }
}

/// The position of the first lane with this index.
pub open spec fn lane_position(lanes: Seq<LaneCheckpoint>, lane_index: u32) -> Option<int>
    decreases lanes.len(),
{
    if lanes.len() == 0 {
        None
    } else {
        match lane_position(lanes.drop_last(), lane_index) {
            Some(i) => Some(i),
            None => if lanes.last().lane_index == lane_index {
                Some(lanes.len() - 1)
            } else {
                None
            },
        }
    }
}

/// The lane once it is brought back to the last offset that it can resume from.
pub open spec fn rewound_lane(lane: LaneCheckpoint) -> LaneCheckpoint {
    LaneCheckpoint {
        offset: ranges::durable_offset(lane.offset, lane.range_start, lane.range_end_exclusive),
        ..lane
    }
}

/// The lane once bytes up to `new_offset` are on disk. It never moves back.
pub open spec fn advanced_lane(lane: LaneCheckpoint, new_offset: u64) -> LaneCheckpoint {
    let durable = ranges::durable_offset(new_offset, lane.range_start, lane.range_end_exclusive);
    LaneCheckpoint {
        offset: if lane.offset > durable {
            lane.offset
        } else {
            durable
        },
        ..lane
    }
}

/// The first way in which a checkpoint does not fit a lane stream.
pub open spec fn layout_fault(
    checkpoint: TransferCheckpoint,
    file_size_bytes: u64,
    total_lanes: u32,
    range_start: u64,
    range_end_exclusive: u64,
    lane_index: u32,
) -> Option<CheckpointFault> {
    if checkpoint.file_size_bytes != file_size_bytes {
        Some(
            CheckpointFault::FileSize {
                checkpoint_size: checkpoint.file_size_bytes,
                transfer_size: file_size_bytes,
            },
        )
    } else if checkpoint.total_lanes != total_lanes {
        Some(
            CheckpointFault::LaneCount {
                checkpoint_lanes: checkpoint.total_lanes,
                stream_lanes: total_lanes,
            },
        )
    } else {
        match lane_position(checkpoint.lanes@, lane_index) {
            None => Some(CheckpointFault::LaneMissing { lane_index }),
            Some(i) => {
                let lane = checkpoint.lanes@[i];
                if lane.range_start != range_start || lane.range_end_exclusive
                    != range_end_exclusive {
                    Some(
                        CheckpointFault::LaneRange {
                            lane_index,
                            expected_start: range_start,
                            expected_end: range_end_exclusive,
                            found_start: lane.range_start,
                            found_end: lane.range_end_exclusive,
                        },
                    )
                } else {
                    None
                }
            },
        }
    }
}

proof fn lane_position_is_in_bounds(lanes: Seq<LaneCheckpoint>, lane_index: u32)
    ensures
        lane_position(lanes, lane_index) matches Some(i) ==> 0 <= i < lanes.len()
            && lanes[i].lane_index == lane_index,
    decreases lanes.len(),
{
    if lanes.len() > 0 {
        lane_position_is_in_bounds(lanes.drop_last(), lane_index);
    }
}

/// A lane found in a prefix is the one found in the whole.
proof fn lane_position_extends(lanes: Seq<LaneCheckpoint>, n: int, lane_index: u32)
    requires
        0 <= n <= lanes.len(),
        lane_position(lanes.take(n), lane_index) is Some,
    ensures
        lane_position(lanes, lane_index) == lane_position(lanes.take(n), lane_index),
    decreases lanes.len(),
{
    if n < lanes.len() {
        assert(lanes.drop_last().take(n) =~= lanes.take(n));
        lane_position_extends(lanes.drop_last(), n, lane_index);
    } else {
        assert(lanes.take(n) =~= lanes);
    }
}

/// The sum after one lane changes.
proof fn total_progress_of_update(lanes: Seq<LaneCheckpoint>, i: int, lane: LaneCheckpoint)
    requires
        0 <= i < lanes.len(),
    ensures
        total_progress(lanes.update(i, lane)) + lane_progress(lanes[i]) == total_progress(lanes)
            + lane_progress(lane),
    decreases lanes.len(),
{
    let updated = lanes.update(i, lane);
    if i == lanes.len() - 1 {
        assert(updated.drop_last() =~= lanes.drop_last());
    } else {
        assert(updated.drop_last() =~= lanes.drop_last().update(i, lane));
        total_progress_of_update(lanes.drop_last(), i, lane);
    }
}

/// The sum over a prefix is no larger than the whole sum.
proof fn total_progress_of_prefix(lanes: Seq<LaneCheckpoint>, n: int)
    requires
        0 <= n <= lanes.len(),
    ensures
        total_progress(lanes.take(n)) <= total_progress(lanes),
    decreases lanes.len(),
{
    if n < lanes.len() {
        assert(lanes.drop_last().take(n) =~= lanes.take(n));
        total_progress_of_prefix(lanes.drop_last(), n);
    } else {
        assert(lanes.take(n) =~= lanes);
    }
}

impl TransferCheckpoint {
    /// The bytes that all lanes have carried.
    pub fn total_transferred(&self) -> (r: u64)
        requires
            total_progress(self.lanes@) <= u64::MAX,
        ensures
            r == total_progress(self.lanes@),
    {
        let mut total: u64 = 0;
        for i in 0..self.lanes.len()
            invariant
                total_progress(self.lanes@) <= u64::MAX,
                total == total_progress(self.lanes@.take(i as int)),
        {
            let lane = self.lanes[i];
            proof {
                let next = self.lanes@.take(i + 1);
                assert(next.drop_last() =~= self.lanes@.take(i as int));
                total_progress_of_prefix(self.lanes@, i + 1);
            }
            total = total + lane.offset.saturating_sub(lane.range_start);
        }
        assert(self.lanes@.take(self.lanes@.len() as int) =~= self.lanes@);
        total
    }

    /// Whether every lane has reached the end of its range.
    pub open spec fn is_complete(&self) -> bool {
        forall|i: int|
            0 <= i < self.lanes@.len() ==> (#[trigger] self.lanes@[i]).offset
                >= self.lanes@[i].range_end_exclusive
    }

    pub fn all_lanes_complete(&self) -> (r: bool)
        ensures
            r == self.is_complete(),
            r <==> forall|i: int|
                0 <= i < self.lanes@.len() ==> (#[trigger] self.lanes@[i]).range_end_exclusive
                    <= self.lanes@[i].offset,
    {
        for i in 0..self.lanes.len()
            invariant
                forall|j: int|
                    0 <= j < i ==> (#[trigger] self.lanes@[j]).offset
                        >= self.lanes@[j].range_end_exclusive,
        {
            if self.lanes[i].offset < self.lanes[i].range_end_exclusive {
                return false;
            }
        }
        true
    }

    /// The position of the first lane with this index.
    pub fn find_lane(&self, lane_index: u32) -> (r: Option<usize>)
        ensures
            match r {
                Some(i) => {
                    &&& lane_position(self.lanes@, lane_index) == Some(i as int)
                    &&& i < self.lanes@.len()
                },
                None => lane_position(self.lanes@, lane_index) is None,
            },
    {
        for i in 0..self.lanes.len()
            invariant
                lane_position(self.lanes@.take(i as int), lane_index) is None,
        {
            proof {
                let next = self.lanes@.take(i + 1);
                assert(next.drop_last() =~= self.lanes@.take(i as int));
            }
            if self.lanes[i].lane_index == lane_index {
                proof {
                    lane_position_extends(self.lanes@, i + 1, lane_index);
                }
                return Some(i);
            }
        }
        assert(self.lanes@.take(self.lanes@.len() as int) =~= self.lanes@);
        None
    }

    /// Whether the checkpoint belongs to the file and the lane that a stream announces.
    pub fn validate_layout(
        &self,
        file_size_bytes: u64,
        total_lanes: u32,
        range_start: u64,
        range_end_exclusive: u64,
        lane_index: u32,
    ) -> (r: Result<(), CheckpointFault>)
        ensures
            match r {
                Ok(()) => layout_fault(
                    *self,
                    file_size_bytes,
                    total_lanes,
                    range_start,
                    range_end_exclusive,
                    lane_index,
                ) is None,
                Err(fault) => layout_fault(
                    *self,
                    file_size_bytes,
                    total_lanes,
                    range_start,
                    range_end_exclusive,
                    lane_index,
                ) == Some(fault),
            },
    {
        if self.file_size_bytes != file_size_bytes {
            return Err(
                CheckpointFault::FileSize {
                    checkpoint_size: self.file_size_bytes,
                    transfer_size: file_size_bytes,
                },
            );
        }
        if self.total_lanes != total_lanes {
            return Err(
                CheckpointFault::LaneCount {
                    checkpoint_lanes: self.total_lanes,
                    stream_lanes: total_lanes,
                },
            );
        }
        match self.find_lane(lane_index) {
            None => Err(CheckpointFault::LaneMissing { lane_index }),
            Some(i) => {
                let lane = self.lanes[i];
                if lane.range_start != range_start || lane.range_end_exclusive
                    != range_end_exclusive {
                    Err(
                        CheckpointFault::LaneRange {
                            lane_index,
                            expected_start: range_start,
                            expected_end: range_end_exclusive,
                            found_start: lane.range_start,
                            found_end: lane.range_end_exclusive,
                        },
                    )
                } else {
                    Ok(())
                }
            },
        }
    }

    /// Brings one lane back to where it can resume. Gives that offset, and the bytes that all
    /// lanes have carried.
    pub fn resume_lane(
        &mut self,
        file_size_bytes: u64,
        total_lanes: u32,
        range_start: u64,
        range_end_exclusive: u64,
        lane_index: u32,
    ) -> (r: Result<(u64, u64), CheckpointFault>)
        requires
            range_start <= range_end_exclusive,
            lane_position(old(self).lanes@, lane_index) matches Some(i) ==> total_progress(
                old(self).lanes@.update(i, rewound_lane(old(self).lanes@[i])),
            ) <= u64::MAX,
        ensures
            final(self).transfer_id == old(self).transfer_id,
            final(self).file_size_bytes == old(self).file_size_bytes,
            final(self).total_lanes == old(self).total_lanes,
            match r {
                Ok((resume, total)) => {
                    &&& layout_fault(
                        *old(self),
                        file_size_bytes,
                        total_lanes,
                        range_start,
                        range_end_exclusive,
                        lane_index,
                    ) is None
                    &&& lane_position(old(self).lanes@, lane_index) matches Some(i) && {
                        let lane = rewound_lane(old(self).lanes@[i]);
                        &&& final(self).lanes@ == old(self).lanes@.update(i, lane)
                        &&& resume == lane.offset
                        &&& range_start <= resume <= range_end_exclusive
                        &&& old(self).lanes@[i].offset <= range_end_exclusive ==> old(
                            self,
                        ).lanes@[i].offset - resume < RESUME_CHUNK_SIZE_BYTES
                        &&& resume <= old(self).lanes@[i].offset || resume == range_start
                    }
                    &&& total == total_progress(final(self).lanes@)
                },
                Err(fault) => {
                    &&& layout_fault(
                        *old(self),
                        file_size_bytes,
                        total_lanes,
                        range_start,
                        range_end_exclusive,
                        lane_index,
                    ) == Some(fault)
                    &&& final(self).lanes@ == old(self).lanes@
                },
            },
    {
        match self.validate_layout(
            file_size_bytes,
            total_lanes,
            range_start,
            range_end_exclusive,
            lane_index,
        ) {
            Ok(()) => {},
            Err(fault) => {
                return Err(fault);
            },
        }
        match self.find_lane(lane_index) {
            None => Err(CheckpointFault::LaneUnknown { lane_index }),
            Some(i) => {
                let mut lane = self.lanes[i];
                lane.offset = durable_resume_offset(
                    lane.offset,
                    lane.range_start,
                    lane.range_end_exclusive,
                );
                self.lanes.set(i, lane);
                let total: u64 = self.total_transferred();
                Ok((lane.offset, total))
            },
        }
    }

    /// Records that bytes up to `new_offset` of one lane are on disk. Gives the bytes that all
    /// lanes have carried.
    pub fn advance_lane(&mut self, lane_index: u32, new_offset: u64) -> (r: Result<
        u64,
        CheckpointFault,
    >)
        requires
            lane_position(old(self).lanes@, lane_index) matches Some(i) ==> {
                &&& old(self).lanes@[i].range_start <= old(self).lanes@[i].range_end_exclusive
                &&& total_progress(
                    old(self).lanes@.update(i, advanced_lane(old(self).lanes@[i], new_offset)),
                ) <= u64::MAX
            },
        ensures
            final(self).transfer_id == old(self).transfer_id,
            final(self).file_size_bytes == old(self).file_size_bytes,
            final(self).total_lanes == old(self).total_lanes,
            match r {
                Ok(total) => {
                    &&& lane_position(old(self).lanes@, lane_index) matches Some(i)
                        && final(self).lanes@ == old(self).lanes@.update(
                        i,
                        advanced_lane(old(self).lanes@[i], new_offset),
                    )
                    &&& lane_position(old(self).lanes@, lane_index) matches Some(i) && {
                        let lane = old(self).lanes@[i];
                        let offset = final(self).lanes@[i].offset;
                        &&& lane.offset <= offset
                        &&& new_offset <= lane.range_end_exclusive ==> new_offset - offset
                            < RESUME_CHUNK_SIZE_BYTES
                        &&& new_offset >= lane.range_end_exclusive ==> offset
                            >= lane.range_end_exclusive
                        &&& offset <= new_offset || offset == lane.offset || offset
                            == lane.range_start
                    }
                    &&& total == total_progress(final(self).lanes@)
                },
                Err(fault) => {
                    &&& lane_position(old(self).lanes@, lane_index) is None
                    &&& fault == CheckpointFault::LaneUnknown { lane_index }
                    &&& final(self).lanes@ == old(self).lanes@
                },
            },
    {
        match self.find_lane(lane_index) {
            None => Err(CheckpointFault::LaneUnknown { lane_index }),
            Some(i) => {
                let mut lane = self.lanes[i];
                let durable: u64 = durable_resume_offset(
                    new_offset,
                    lane.range_start,
                    lane.range_end_exclusive,
                );
                if durable > lane.offset {
                    lane.offset = durable;
                }
                self.lanes.set(i, lane);
                let total: u64 = self.total_transferred();
                Ok(total)
            },
        }
    }
}

/// The lanes of a transfer that has carried nothing.
pub open spec fn fresh_lanes(file_size_bytes: u64, total_lanes: u32) -> Seq<LaneCheckpoint> {
    let cuts = ranges::lane_ranges(file_size_bytes as nat, total_lanes as nat);
    Seq::new(
        total_lanes as nat,
        |i: int|
            LaneCheckpoint {
                lane_index: i as u32,
                range_start: cuts[i].0,
                range_end_exclusive: cuts[i].1,
                offset: cuts[i].0,
            },
    )
}

/// The checkpoint of a transfer that has carried nothing.
pub fn new_checkpoint(transfer_id: u128, file_size_bytes: u64, total_lanes: u32) -> (r:
    TransferCheckpoint)
    requires
        total_lanes > 0,
    ensures
        r.transfer_id == transfer_id,
        r.file_size_bytes == file_size_bytes,
        r.total_lanes == total_lanes,
        r.lanes@ == fresh_lanes(file_size_bytes, total_lanes),
        r.lanes@.len() == total_lanes,
        r.lanes@[0].range_start == 0,
        r.lanes@[total_lanes - 1].range_end_exclusive == file_size_bytes,
        forall|i: int|
            0 <= i < total_lanes ==> {
                &&& (#[trigger] r.lanes@[i]).lane_index == i
                &&& r.lanes@[i].offset == r.lanes@[i].range_start
                &&& i > 0 ==> r.lanes@[i].range_start == r.lanes@[i - 1].range_end_exclusive
            },
{
    let cuts = split_ranges(file_size_bytes, total_lanes);
    let mut lanes: Vec<LaneCheckpoint> = Vec::new();
    for lane_index in 0..total_lanes
        invariant
            cuts@ == ranges::lane_ranges(file_size_bytes as nat, total_lanes as nat),
            cuts@.len() == total_lanes,
            lanes@ == fresh_lanes(file_size_bytes, total_lanes).take(lane_index as int),
    {
        let (range_start, range_end_exclusive) = cuts[lane_index as usize];
        lanes.push(
            LaneCheckpoint { lane_index, range_start, range_end_exclusive, offset: range_start },
        );
        assert(lanes@ =~= fresh_lanes(file_size_bytes, total_lanes).take(lane_index + 1));
    }
    TransferCheckpoint { transfer_id, file_size_bytes, total_lanes, lanes }
}

/// The length of the range of a lane. An inverted range has none.
pub open spec fn lane_room(lane: LaneCheckpoint) -> nat {
    if lane.range_end_exclusive > lane.range_start {
        (lane.range_end_exclusive - lane.range_start) as nat
    } else {
        0
    }
}

/// What a lane may carry at most, or has carried already.
pub open spec fn lane_reach(lane: LaneCheckpoint) -> nat {
    let room = lane_room(lane);
    if lane_progress(lane) > room {
        lane_progress(lane)
    } else {
        room
    }
}

/// The sum of what all lanes may carry.
pub open spec fn total_reach(lanes: Seq<LaneCheckpoint>) -> nat
    decreases lanes.len(),
{
    if lanes.len() == 0 {
        0
    } else {
        total_reach(lanes.drop_last()) + lane_reach(lanes.last())
    }
}

/// Whether the bytes of all lanes can be counted, now and at the end.
pub open spec fn is_countable_lanes(lanes: Seq<LaneCheckpoint>) -> bool {
    total_reach(lanes) <= u64::MAX
}

proof fn total_reach_bounds_progress(lanes: Seq<LaneCheckpoint>)
    ensures
        total_progress(lanes) <= total_reach(lanes),
    decreases lanes.len(),
{
    if lanes.len() > 0 {
        total_reach_bounds_progress(lanes.drop_last());
    }
}

proof fn total_reach_of_update(lanes: Seq<LaneCheckpoint>, i: int, lane: LaneCheckpoint)
    requires
        0 <= i < lanes.len(),
    ensures
        total_reach(lanes.update(i, lane)) + lane_reach(lanes[i]) == total_reach(lanes)
            + lane_reach(lane),
    decreases lanes.len(),
{
    let updated = lanes.update(i, lane);
    if i == lanes.len() - 1 {
        assert(updated.drop_last() =~= lanes.drop_last());
    } else {
        assert(updated.drop_last() =~= lanes.drop_last().update(i, lane));
        total_reach_of_update(lanes.drop_last(), i, lane);
    }
}

proof fn total_reach_of_prefix(lanes: Seq<LaneCheckpoint>, n: int)
    requires
        0 <= n <= lanes.len(),
    ensures
        total_reach(lanes.take(n)) <= total_reach(lanes),
    decreases lanes.len(),
{
    if n < lanes.len() {
        assert(lanes.drop_last().take(n) =~= lanes.take(n));
        total_reach_of_prefix(lanes.drop_last(), n);
    } else {
        assert(lanes.take(n) =~= lanes);
    }
}

impl TransferCheckpoint {
    /// Whether the bytes of all lanes can be counted. A checkpoint that was read back from disk is
    /// worked with only where this holds.
    pub fn is_countable(&self) -> (r: bool)
        ensures
            r == is_countable_lanes(self.lanes@),
    {
        let mut reach: u64 = 0;
        for i in 0..self.lanes.len()
            invariant
                reach == total_reach(self.lanes@.take(i as int)),
        {
            let lane = self.lanes[i];
            let progress: u64 = lane.offset.saturating_sub(lane.range_start);
            let room: u64 = lane.range_end_exclusive.saturating_sub(lane.range_start);
            let most: u64 = if progress > room {
                progress
            } else {
                room
            };
            proof {
                let next = self.lanes@.take(i + 1);
                assert(next.drop_last() =~= self.lanes@.take(i as int));
                total_reach_of_prefix(self.lanes@, i + 1);
            }
            match reach.checked_add(most) {
                Some(sum) => {
                    reach = sum;
                },
                None => {
                    return false;
                },
            }
        }
        assert(self.lanes@.take(self.lanes@.len() as int) =~= self.lanes@);
        true
    }
}

/// A checkpoint whose bytes can be counted can be resumed and advanced at any lane and to any offset,
/// and its bytes can be counted afterwards.
pub proof fn countable_lanes_stay_countable(
    lanes: Seq<LaneCheckpoint>,
    lane_index: u32,
    new_offset: u64,
)
    requires
        is_countable_lanes(lanes),
    ensures
        total_progress(lanes) <= u64::MAX,
        lane_position(lanes, lane_index) matches Some(i) ==> {
            let rewound = lanes.update(i, rewound_lane(lanes[i]));
            let advanced = lanes.update(i, advanced_lane(lanes[i], new_offset));
            &&& is_countable_lanes(rewound)
            &&& total_progress(rewound) <= u64::MAX
            &&& is_countable_lanes(advanced)
            &&& total_progress(advanced) <= u64::MAX
        },
{
    total_reach_bounds_progress(lanes);
    lane_position_is_in_bounds(lanes, lane_index);
    if let Some(i) = lane_position(lanes, lane_index) {
        let rewound = lanes.update(i, rewound_lane(lanes[i]));
        let advanced = lanes.update(i, advanced_lane(lanes[i], new_offset));
        total_reach_of_update(lanes, i, rewound_lane(lanes[i]));
        total_reach_of_update(lanes, i, advanced_lane(lanes[i], new_offset));
        total_reach_bounds_progress(rewound);
        total_reach_bounds_progress(advanced);
    }
}

/// Whether the lanes are the lanes of the file, each with its offset in its range.
pub open spec fn covers_file(lanes: Seq<LaneCheckpoint>, file_size_bytes: u64, total_lanes: u32) -> bool {
    let cuts = ranges::lane_ranges(file_size_bytes as nat, total_lanes as nat);
    &&& total_lanes > 0
    &&& lanes.len() == total_lanes
    &&& forall|i: int|
        0 <= i < total_lanes ==> {
            &&& (#[trigger] lanes[i]).lane_index == i
            &&& lanes[i].range_start == cuts[i].0
            &&& lanes[i].range_end_exclusive == cuts[i].1
            &&& lanes[i].range_start <= lanes[i].offset <= lanes[i].range_end_exclusive
        }
}

/// Where lanes cover a file, the lane with index `i` is found at position `i`.
proof fn covering_lane_position(
    lanes: Seq<LaneCheckpoint>,
    file_size_bytes: u64,
    total_lanes: u32,
    lane_index: u32,
)
    requires
        covers_file(lanes, file_size_bytes, total_lanes),
        lane_index < total_lanes,
    ensures
        lane_position(lanes, lane_index) == Some(lane_index as int),
{
    lane_position_skips(lanes.take(lane_index as int), lane_index);
    let up_to = lanes.take(lane_index + 1);
    assert(up_to.drop_last() =~= lanes.take(lane_index as int));
    assert(up_to.last() == lanes[lane_index as int]);
    lane_position_extends(lanes, lane_index + 1, lane_index);
}

proof fn lane_position_skips(lanes: Seq<LaneCheckpoint>, lane_index: u32)
    requires
        forall|i: int| 0 <= i < lanes.len() ==> (#[trigger] lanes[i]).lane_index != lane_index,
    ensures
        lane_position(lanes, lane_index) is None,
    decreases lanes.len(),
{
    if lanes.len() > 0 {
        lane_position_skips(lanes.drop_last(), lane_index);
    }
}

/// The checkpoint of a new transfer covers its file, has carried nothing, and fits every lane
/// stream that announces one of the ranges that the file is cut into.
pub proof fn fresh_checkpoint_covers_the_file(checkpoint: TransferCheckpoint, lane_index: u32)
    requires
        lane_index < checkpoint.total_lanes,
        checkpoint.lanes@ == fresh_lanes(checkpoint.file_size_bytes, checkpoint.total_lanes),
    ensures
        covers_file(checkpoint.lanes@, checkpoint.file_size_bytes, checkpoint.total_lanes),
        total_progress(checkpoint.lanes@) == 0,
        ({
            let range = ranges::lane_ranges(
                checkpoint.file_size_bytes as nat,
                checkpoint.total_lanes as nat,
            )[lane_index as int];
            layout_fault(
                checkpoint,
                checkpoint.file_size_bytes,
                checkpoint.total_lanes,
                range.0,
                range.1,
                lane_index,
            ) is None
        }),
{
    ranges::lane_ranges_partition_the_file(checkpoint.file_size_bytes, checkpoint.total_lanes);
    covering_lane_position(
        checkpoint.lanes@,
        checkpoint.file_size_bytes,
        checkpoint.total_lanes,
        lane_index,
    );
    nothing_carried(checkpoint.lanes@);
}

proof fn nothing_carried(lanes: Seq<LaneCheckpoint>)
    requires
        forall|i: int| 0 <= i < lanes.len() ==> lane_progress(#[trigger] lanes[i]) == 0,
    ensures
        total_progress(lanes) == 0,
    decreases lanes.len(),
{
    if lanes.len() > 0 {
        nothing_carried(lanes.drop_last());
    }
}

/// The first `n` lanes have carried at most the bytes up to the end of the `n`-th range, and
/// exactly that where all of them are complete.
proof fn progress_up_to_a_cut(
    lanes: Seq<LaneCheckpoint>,
    file_size_bytes: u64,
    total_lanes: u32,
    n: nat,
)
    requires
        covers_file(lanes, file_size_bytes, total_lanes),
        n <= total_lanes,
    ensures
        total_progress(lanes.take(n as int)) <= ranges::lane_cut(
            file_size_bytes as nat,
            total_lanes as nat,
            n,
        ),
        total_progress(lanes.take(n as int)) == ranges::lane_cut(
            file_size_bytes as nat,
            total_lanes as nat,
            n,
        ) <==> forall|i: int|
            0 <= i < n ==> (#[trigger] lanes[i]).offset == lanes[i].range_end_exclusive,
    decreases n,
{
    let size = file_size_bytes as nat;
    if n == 0 {
        assert(lanes.take(0) =~= Seq::empty());
        ranges::lane_cuts_partition(size, total_lanes as nat, 0);
    } else {
        let m = (n - 1) as nat;
        progress_up_to_a_cut(lanes, file_size_bytes, total_lanes, m);
        ranges::lane_cuts_partition(size, total_lanes as nat, m);
        let prefix = lanes.take(n as int);
        assert(prefix.drop_last() =~= lanes.take(m as int));
        let lane = lanes[m as int];
        assert(prefix.last() == lane);
        let all = forall|i: int|
            0 <= i < n ==> (#[trigger] lanes[i]).offset == lanes[i].range_end_exclusive;
        let most = forall|i: int|
            0 <= i < m ==> (#[trigger] lanes[i]).offset == lanes[i].range_end_exclusive;
        assert(all <==> most && lane.offset == lane.range_end_exclusive);
    }
}

/// The lanes of a file have carried no more bytes than it has, and all of its bytes exactly where
/// every lane is complete.
pub proof fn carried_bytes_fit_the_file(checkpoint: TransferCheckpoint)
    requires
        covers_file(checkpoint.lanes@, checkpoint.file_size_bytes, checkpoint.total_lanes),
    ensures
        total_progress(checkpoint.lanes@) <= checkpoint.file_size_bytes,
        checkpoint.is_complete() <==> total_progress(checkpoint.lanes@)
            == checkpoint.file_size_bytes,
        is_countable_lanes(checkpoint.lanes@),
{
    let lanes = checkpoint.lanes@;
    let n = checkpoint.total_lanes as nat;
    progress_up_to_a_cut(lanes, checkpoint.file_size_bytes, checkpoint.total_lanes, n);
    ranges::lane_cuts_partition(checkpoint.file_size_bytes as nat, n, 0);
    assert(lanes.take(n as int) =~= lanes);
    reach_up_to_a_cut(lanes, checkpoint.file_size_bytes, checkpoint.total_lanes, n);
}

proof fn reach_up_to_a_cut(
    lanes: Seq<LaneCheckpoint>,
    file_size_bytes: u64,
    total_lanes: u32,
    n: nat,
)
    requires
        covers_file(lanes, file_size_bytes, total_lanes),
        n <= total_lanes,
    ensures
        total_reach(lanes.take(n as int)) == ranges::lane_cut(
            file_size_bytes as nat,
            total_lanes as nat,
            n,
        ),
    decreases n,
{
    let size = file_size_bytes as nat;
    if n == 0 {
        assert(lanes.take(0) =~= Seq::empty());
        ranges::lane_cuts_partition(size, total_lanes as nat, 0);
    } else {
        let m = (n - 1) as nat;
        reach_up_to_a_cut(lanes, file_size_bytes, total_lanes, m);
        ranges::lane_cuts_partition(size, total_lanes as nat, m);
        let prefix = lanes.take(n as int);
        assert(prefix.drop_last() =~= lanes.take(m as int));
        assert(prefix.last() == lanes[m as int]);
    }
}

/// Recording progress keeps the lanes over the file, never lowers the bytes carried, touches no
/// other lane, and completes the lane once its end is on disk.
pub proof fn advancing_a_lane_is_monotone(
    lanes: Seq<LaneCheckpoint>,
    file_size_bytes: u64,
    total_lanes: u32,
    lane_index: u32,
    new_offset: u64,
)
    requires
        covers_file(lanes, file_size_bytes, total_lanes),
        lane_index < total_lanes,
    ensures
        lane_position(lanes, lane_index) == Some(lane_index as int),
        ({
            let i = lane_index as int;
            let advanced = lanes.update(i, advanced_lane(lanes[i], new_offset));
            &&& covers_file(advanced, file_size_bytes, total_lanes)
            &&& total_progress(advanced) >= total_progress(lanes)
            &&& new_offset >= lanes[i].range_end_exclusive ==> advanced[i].offset
                == lanes[i].range_end_exclusive
            &&& new_offset >= lanes[i].range_start ==> advanced[i].offset <= new_offset
                || advanced[i].offset == lanes[i].offset
        }),
{
    covering_lane_position(lanes, file_size_bytes, total_lanes, lane_index);
    let i = lane_index as int;
    total_progress_of_update(lanes, i, advanced_lane(lanes[i], new_offset));
}

/// Bringing a lane back keeps the lanes over the file and never claims more than was carried.
/// What was recorded as durable is not lost: a lane that was advanced resumes where it stands.
pub proof fn resuming_a_lane_keeps_what_is_durable(
    lanes: Seq<LaneCheckpoint>,
    file_size_bytes: u64,
    total_lanes: u32,
    lane_index: u32,
    new_offset: u64,
)
    requires
        covers_file(lanes, file_size_bytes, total_lanes),
        lane_index < total_lanes,
    ensures
        ({
            let i = lane_index as int;
            let rewound = lanes.update(i, rewound_lane(lanes[i]));
            &&& covers_file(rewound, file_size_bytes, total_lanes)
            &&& total_progress(rewound) <= total_progress(lanes)
            &&& rewound[i].offset <= lanes[i].offset
            &&& rewound_lane(rewound[i]) == rewound[i]
            &&& rewound_lane(advanced_lane(rewound[i], new_offset)) == advanced_lane(
                rewound[i],
                new_offset,
            )
        }),
{
    let i = lane_index as int;
    total_progress_of_update(lanes, i, rewound_lane(lanes[i]));
}

/// What a record leaves in a checkpoint. A lane that is on disk up to an offset inside its range
/// resumes less than one resume chunk before it, and at the end of the range where that is reached. It
/// resumes no earlier than any place of its range that is on disk and at which a lane may resume, nor
/// earlier than without the record; and it never resumes behind what is on disk. Nothing but the
/// offset changes.
pub proof fn a_record_loses_less_than_a_chunk(lane: LaneCheckpoint, new_offset: u64, point: u64)
    requires
        lane.range_start <= point <= lane.range_end_exclusive,
        point == lane.range_start || point == lane.range_end_exclusive || point
            % RESUME_CHUNK_SIZE_BYTES == 0,
    ensures
        ({
            let after = advanced_lane(lane, new_offset);
            &&& after.lane_index == lane.lane_index
            &&& after.range_start == lane.range_start
            &&& after.range_end_exclusive == lane.range_end_exclusive
            &&& after.offset >= lane.offset
            &&& after.offset >= lane.range_start
            &&& point <= new_offset ==> point <= after.offset
            &&& new_offset <= lane.range_end_exclusive ==> new_offset - after.offset
                < RESUME_CHUNK_SIZE_BYTES
            &&& new_offset >= lane.range_end_exclusive ==> after.offset >= lane.range_end_exclusive
            &&& after.offset == lane.offset || after.offset == lane.range_start || after.offset
                == lane.range_end_exclusive || after.offset % RESUME_CHUNK_SIZE_BYTES
                == 0
            &&& after.offset == lane.offset || after.offset == lane.range_start || after.offset
                <= new_offset
        }),
{
}

/// Where a lane resumes does not depend on how many records it took to get there, nor on the order
/// in which they came: two records leave what the further one alone leaves.
pub proof fn records_leave_what_the_furthest_leaves(
    lane: LaneCheckpoint,
    new_offset: u64,
    further: u64,
)
    requires
        lane.range_start <= lane.range_end_exclusive,
        new_offset <= further,
    ensures
        advanced_lane(advanced_lane(lane, new_offset), further) == advanced_lane(lane, further),
        advanced_lane(advanced_lane(lane, further), new_offset) == advanced_lane(lane, further),
{
}

/// A lane that is brought back stays in its range and loses less than one resume chunk of what it had
/// inside it: it resumes no earlier than any place that it had reached and at which a lane may resume.
/// A lane that was complete stays complete. Nothing but the offset changes.
pub proof fn a_resumed_lane_loses_less_than_a_chunk(lane: LaneCheckpoint, point: u64)
    requires
        lane.range_start <= point <= lane.range_end_exclusive,
        point == lane.range_start || point == lane.range_end_exclusive || point
            % RESUME_CHUNK_SIZE_BYTES == 0,
    ensures
        ({
            let after = rewound_lane(lane);
            &&& after == (LaneCheckpoint { offset: after.offset, ..lane })
            &&& point <= lane.offset ==> point <= after.offset
            &&& lane.range_start <= after.offset <= lane.range_end_exclusive
            &&& after.offset == lane.range_start || after.offset == lane.range_end_exclusive
                || after.offset % RESUME_CHUNK_SIZE_BYTES == 0
            &&& after.offset <= lane.offset || after.offset == lane.range_start
            &&& lane.offset <= lane.range_end_exclusive ==> lane.offset - after.offset
                < RESUME_CHUNK_SIZE_BYTES
            &&& lane.offset >= lane.range_end_exclusive ==> after.offset == lane.range_end_exclusive
        }),
{
}

/// The bytes that lanes have carried add up: those of some lanes and of the others make those of all,
/// none count for no lanes, and a lane counts with what lies between its start and its offset.
pub proof fn carried_bytes_add_up(
    some: Seq<LaneCheckpoint>,
    others: Seq<LaneCheckpoint>,
    lane: LaneCheckpoint,
)
    ensures
        total_progress(Seq::empty()) == 0,
        total_progress(some + others) == total_progress(some) + total_progress(others),
        lane.range_start <= lane.offset ==> total_progress(some.push(lane)) - total_progress(some)
            == lane.offset - lane.range_start,
        lane.offset <= lane.range_start ==> total_progress(some.push(lane)) == total_progress(some),
    decreases others.len(),
{
    assert(some.push(lane).drop_last() =~= some);
    if others.len() == 0 {
        assert(some + others =~= some);
    } else {
        carried_bytes_add_up(some, others.drop_last(), lane);
        assert((some + others).drop_last() =~= some + others.drop_last());
    }
}

/// A lane is found exactly where there is one with its index, and of several the first is.
pub proof fn the_first_lane_with_an_index_is_found(lanes: Seq<LaneCheckpoint>, lane_index: u32)
    ensures
        match lane_position(lanes, lane_index) {
            Some(i) => {
                &&& 0 <= i < lanes.len()
                &&& lanes[i].lane_index == lane_index
                &&& forall|j: int| 0 <= j < i ==> (#[trigger] lanes[j]).lane_index != lane_index
            },
            None => forall|j: int|
                0 <= j < lanes.len() ==> (#[trigger] lanes[j]).lane_index != lane_index,
        },
    decreases lanes.len(),
{
    if lanes.len() > 0 {
        let rest = lanes.drop_last();
        the_first_lane_with_an_index_is_found(rest, lane_index);
        assert(forall|j: int| 0 <= j < rest.len() ==> #[trigger] lanes[j] == rest[j]);
    }
}

/// A stream fits a checkpoint exactly where the file is as long, the lanes are as many, and the lane
/// with its index, the first of several, has its range. A file of another length is named before
/// another number of lanes, and that before the lane.
pub proof fn a_checkpoint_fits_its_own_streams(
    checkpoint: TransferCheckpoint,
    file_size_bytes: u64,
    total_lanes: u32,
    range_start: u64,
    range_end_exclusive: u64,
    lane_index: u32,
    i: int,
)
    requires
        0 <= i < checkpoint.lanes@.len(),
        checkpoint.lanes@[i].lane_index == lane_index,
        forall|j: int|
            0 <= j < i ==> (#[trigger] checkpoint.lanes@[j]).lane_index != lane_index,
    ensures
        ({
            let fault = layout_fault(
                checkpoint,
                file_size_bytes,
                total_lanes,
                range_start,
                range_end_exclusive,
                lane_index,
            );
            let same_size = checkpoint.file_size_bytes == file_size_bytes;
            let same_lanes = checkpoint.total_lanes == total_lanes;
            let lane = checkpoint.lanes@[i];
            let same_range = lane.range_start == range_start && lane.range_end_exclusive
                == range_end_exclusive;
            &&& fault is None <==> same_size && same_lanes && same_range
            &&& (fault is Some && fault->0 is FileSize) <==> !same_size
            &&& (fault is Some && fault->0 is LaneCount) <==> same_size && !same_lanes
            &&& (fault is Some && fault->0 is LaneRange) <==> same_size && same_lanes
                && !same_range
            &&& fault matches Some(
                CheckpointFault::LaneRange {
                    lane_index: named,
                    expected_start,
                    expected_end,
                    found_start,
                    found_end,
                },
            ) ==> {
                &&& named == lane_index
                &&& (expected_start, expected_end) == (range_start, range_end_exclusive)
                &&& (found_start, found_end) == (lane.range_start, lane.range_end_exclusive)
            }
            &&& fault matches Some(CheckpointFault::FileSize { checkpoint_size, transfer_size })
                ==> checkpoint_size == checkpoint.file_size_bytes && transfer_size
                == file_size_bytes
            &&& fault matches Some(CheckpointFault::LaneCount { checkpoint_lanes, stream_lanes })
                ==> checkpoint_lanes == checkpoint.total_lanes && stream_lanes == total_lanes
        }),
{
    the_first_lane_with_an_index_is_found(checkpoint.lanes@, lane_index);
    assert(lane_position(checkpoint.lanes@, lane_index) == Some(i));
}

/// A stream on a lane that a checkpoint does not have never fits it.
pub proof fn a_checkpoint_fits_no_other_lane(
    checkpoint: TransferCheckpoint,
    file_size_bytes: u64,
    total_lanes: u32,
    range_start: u64,
    range_end_exclusive: u64,
    lane_index: u32,
)
    requires
        forall|j: int|
            0 <= j < checkpoint.lanes@.len() ==> (#[trigger] checkpoint.lanes@[j]).lane_index
                != lane_index,
    ensures
        layout_fault(
            checkpoint,
            file_size_bytes,
            total_lanes,
            range_start,
            range_end_exclusive,
            lane_index,
        ) is Some,
{
    the_first_lane_with_an_index_is_found(checkpoint.lanes@, lane_index);
}

} // verus!
