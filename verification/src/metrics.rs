//! What is measured of lane streams and transfers.
//!
//! The functions here say which instruments are fed, with which values and attributes. Seconds and
//! rates are left as integers; the meter that is fed turns them into fractions.

use crate::messages::TransferStatus;
use vstd::prelude::*;

verus! {

/// An instrument of the meter.
#[derive(Debug, Clone, Copy, PartialEq, Eq, Structural)]
pub enum Instrument {
    LaneStreamsStarted,
    LaneStreamsFinished,
    LaneStreamsActive,
    LaneBytesReceived,
    LaneDuration,
    LaneThroughput,
    TransferFinished,
    TransferDuration,
    TransferThroughput,
}

impl Instrument {
    /// The name of the instrument.
    pub open spec fn title(self) -> Seq<char> {
        match self {
            Instrument::LaneStreamsStarted => "metra.quic.lane.streams.started.total"@,
            Instrument::LaneStreamsFinished => "metra.quic.lane.streams.finished.total"@,
            Instrument::LaneStreamsActive => "metra.quic.lane.streams.active"@,
            Instrument::LaneBytesReceived => "metra.quic.lane.bytes.received.total"@,
            Instrument::LaneDuration => "metra.quic.lane.duration.seconds"@,
            Instrument::LaneThroughput => "metra.quic.lane.throughput.gbps"@,
            Instrument::TransferFinished => "metra.quic.transfer.finished.total"@,
            Instrument::TransferDuration => "metra.quic.transfer.duration.seconds"@,
            Instrument::TransferThroughput => "metra.quic.transfer.throughput.gbps"@,
        }
    }

    pub fn name(self) -> (r: &'static str)
        ensures
            r@ == self.title(),
            r@ == match self {
                Instrument::LaneStreamsStarted => "metra.quic.lane.streams.started.total"@,
                Instrument::LaneStreamsFinished => "metra.quic.lane.streams.finished.total"@,
                Instrument::LaneStreamsActive => "metra.quic.lane.streams.active"@,
                Instrument::LaneBytesReceived => "metra.quic.lane.bytes.received.total"@,
                Instrument::LaneDuration => "metra.quic.lane.duration.seconds"@,
                Instrument::LaneThroughput => "metra.quic.lane.throughput.gbps"@,
                Instrument::TransferFinished => "metra.quic.transfer.finished.total"@,
                Instrument::TransferDuration => "metra.quic.transfer.duration.seconds"@,
                Instrument::TransferThroughput => "metra.quic.transfer.throughput.gbps"@,
            },
    {
        match self {
            Instrument::LaneStreamsStarted => "metra.quic.lane.streams.started.total",
            Instrument::LaneStreamsFinished => "metra.quic.lane.streams.finished.total",
            Instrument::LaneStreamsActive => "metra.quic.lane.streams.active",
            Instrument::LaneBytesReceived => "metra.quic.lane.bytes.received.total",
            Instrument::LaneDuration => "metra.quic.lane.duration.seconds",
            Instrument::LaneThroughput => "metra.quic.lane.throughput.gbps",
            Instrument::TransferFinished => "metra.quic.transfer.finished.total",
            Instrument::TransferDuration => "metra.quic.transfer.duration.seconds",
            Instrument::TransferThroughput => "metra.quic.transfer.throughput.gbps",
        }
    }
}

/// A value that an instrument is fed.
#[derive(Debug, Clone, Copy, PartialEq, Eq, Structural)]
pub enum Reading {
    /// Added to a counter.
    Count(u64),
    /// Added to a counter that goes up and down.
    Change(i64),
    /// A duration in nanoseconds.
    Elapsed { nanos: u128 },
    /// A rate: so many bytes in so many nanoseconds.
    Rate { bytes: u64, nanos: u128 },
}

/// What a measurement is told apart by.
#[derive(Debug, Clone, Copy, PartialEq, Eq, Structural)]
pub struct Attributes {
    pub lane_index: Option<u32>,
    pub total_lanes: u32,
    pub striped: bool,
    pub no_disk: bool,
    pub status: Option<TransferStatus>,
}

/// One value for one instrument.
#[derive(Debug, Clone, Copy, PartialEq, Eq, Structural)]
pub struct Measurement {
    pub instrument: Instrument,
    pub reading: Reading,
    pub attributes: Attributes,
}

/// The word for a status.
pub open spec fn status_word(status: TransferStatus) -> Seq<char> {
    match status {
        TransferStatus::Queued => "queued"@,
        TransferStatus::Running => "running"@,
        TransferStatus::Completed => "completed"@,
        TransferStatus::Failed => "failed"@,
    }
}

pub fn status_label(status: TransferStatus) -> (r: &'static str)
    ensures
        r@ == status_word(status),
        r@ == match status {
            TransferStatus::Queued => "queued"@,
            TransferStatus::Running => "running"@,
            TransferStatus::Completed => "completed"@,
            TransferStatus::Failed => "failed"@,
        },
{
    match status {
        TransferStatus::Queued => "queued",
        TransferStatus::Running => "running",
        TransferStatus::Completed => "completed",
        TransferStatus::Failed => "failed",
    }
}

/// What a lane stream that starts is counted as.
pub open spec fn lane_started(lane_index: u32, total_lanes: u32, striped: bool, no_disk: bool) -> Seq<
    Measurement,
> {
    seq![
        Measurement {
            instrument: Instrument::LaneStreamsStarted,
            reading: Reading::Count(1),
            attributes: Attributes {
                lane_index: Some(lane_index),
                total_lanes,
                striped,
                no_disk,
                status: None,
            },
        },
        Measurement {
            instrument: Instrument::LaneStreamsActive,
            reading: Reading::Change(1),
            attributes: Attributes { lane_index: None, total_lanes, striped, no_disk, status: None },
        },
    ]
}

pub fn record_lane_stream_started(
    lane_index: u32,
    total_lanes: u32,
    striped: bool,
    no_disk: bool,
) -> (r: Vec<Measurement>)
    ensures
        r@ == lane_started(lane_index, total_lanes, striped, no_disk),
{
    let lane = Attributes {
        lane_index: Some(lane_index),
        total_lanes,
        striped,
        no_disk,
        status: None,
    };
    let stream = Attributes { lane_index: None, total_lanes, striped, no_disk, status: None };
    let mut out: Vec<Measurement> = Vec::new();
    out.push(
        Measurement {
            instrument: Instrument::LaneStreamsStarted,
            reading: Reading::Count(1),
            attributes: lane,
        },
    );
    out.push(
        Measurement {
            instrument: Instrument::LaneStreamsActive,
            reading: Reading::Change(1),
            attributes: stream,
        },
    );
    assert(out@ =~= lane_started(lane_index, total_lanes, striped, no_disk));
    out
}

/// What a lane stream that ends is counted as. Without elapsed time there is no rate.
pub open spec fn lane_finished(
    lane_index: u32,
    total_lanes: u32,
    striped: bool,
    no_disk: bool,
    status: TransferStatus,
    bytes_received: u64,
    elapsed_nanos: u128,
) -> Seq<Measurement> {
    let lane = Attributes {
        lane_index: Some(lane_index),
        total_lanes,
        striped,
        no_disk,
        status: Some(status),
    };
    let stream = Attributes {
        lane_index: None,
        total_lanes,
        striped,
        no_disk,
        status: Some(status),
    };
    let counted = seq![
        Measurement {
            instrument: Instrument::LaneStreamsFinished,
            reading: Reading::Count(1),
            attributes: lane,
        },
        Measurement {
            instrument: Instrument::LaneStreamsActive,
            reading: Reading::Change(-1i64),
            attributes: stream,
        },
        Measurement {
            instrument: Instrument::LaneBytesReceived,
            reading: Reading::Count(bytes_received),
            attributes: lane,
        },
        Measurement {
            instrument: Instrument::LaneDuration,
            reading: Reading::Elapsed { nanos: elapsed_nanos },
            attributes: lane,
        },
    ];
    if elapsed_nanos > 0 {
        counted.push(
            Measurement {
                instrument: Instrument::LaneThroughput,
                reading: Reading::Rate { bytes: bytes_received, nanos: elapsed_nanos },
                attributes: lane,
            },
        )
    } else {
        counted
    }
}

pub fn record_lane_stream_finished(
    lane_index: u32,
    total_lanes: u32,
    striped: bool,
    no_disk: bool,
    status: TransferStatus,
    bytes_received: u64,
    elapsed_nanos: u128,
) -> (r: Vec<Measurement>)
    ensures
        r@ == lane_finished(
            lane_index,
            total_lanes,
            striped,
            no_disk,
            status,
            bytes_received,
            elapsed_nanos,
        ),
{
    let lane = Attributes {
        lane_index: Some(lane_index),
        total_lanes,
        striped,
        no_disk,
        status: Some(status),
    };
    let stream = Attributes {
        lane_index: None,
        total_lanes,
        striped,
        no_disk,
        status: Some(status),
    };
    let mut out: Vec<Measurement> = Vec::new();
    out.push(
        Measurement {
            instrument: Instrument::LaneStreamsFinished,
            reading: Reading::Count(1),
            attributes: lane,
        },
    );
    out.push(
        Measurement {
            instrument: Instrument::LaneStreamsActive,
            reading: Reading::Change(-1),
            attributes: stream,
        },
    );
    out.push(
        Measurement {
            instrument: Instrument::LaneBytesReceived,
            reading: Reading::Count(bytes_received),
            attributes: lane,
        },
    );
    out.push(
        Measurement {
            instrument: Instrument::LaneDuration,
            reading: Reading::Elapsed { nanos: elapsed_nanos },
            attributes: lane,
        },
    );
    if elapsed_nanos > 0 {
        out.push(
            Measurement {
                instrument: Instrument::LaneThroughput,
                reading: Reading::Rate { bytes: bytes_received, nanos: elapsed_nanos },
                attributes: lane,
            },
        );
    }
    assert(out@ =~= lane_finished(
        lane_index,
        total_lanes,
        striped,
        no_disk,
        status,
        bytes_received,
        elapsed_nanos,
    ));
    out
}

/// What a transfer that ends is counted as. Without elapsed time there is no rate.
pub open spec fn transfer_finished(
    total_lanes: u32,
    striped: bool,
    no_disk: bool,
    status: TransferStatus,
    bytes_transferred: u64,
    elapsed_nanos: u128,
) -> Seq<Measurement> {
    let attributes = Attributes {
        lane_index: None,
        total_lanes,
        striped,
        no_disk,
        status: Some(status),
    };
    let counted = seq![
        Measurement {
            instrument: Instrument::TransferFinished,
            reading: Reading::Count(1),
            attributes,
        },
        Measurement {
            instrument: Instrument::TransferDuration,
            reading: Reading::Elapsed { nanos: elapsed_nanos },
            attributes,
        },
    ];
    if elapsed_nanos > 0 {
        counted.push(
            Measurement {
                instrument: Instrument::TransferThroughput,
                reading: Reading::Rate { bytes: bytes_transferred, nanos: elapsed_nanos },
                attributes,
            },
        )
    } else {
        counted
    }
}

pub fn record_transfer_finished(
    total_lanes: u32,
    striped: bool,
    no_disk: bool,
    status: TransferStatus,
    bytes_transferred: u64,
    elapsed_nanos: u128,
) -> (r: Vec<Measurement>)
    ensures
        r@ == transfer_finished(
            total_lanes,
            striped,
            no_disk,
            status,
            bytes_transferred,
            elapsed_nanos,
        ),
{
    let attributes = Attributes {
        lane_index: None,
        total_lanes,
        striped,
        no_disk,
        status: Some(status),
    };
    let mut out: Vec<Measurement> = Vec::new();
    out.push(
        Measurement {
            instrument: Instrument::TransferFinished,
            reading: Reading::Count(1),
            attributes,
        },
    );
    out.push(
        Measurement {
            instrument: Instrument::TransferDuration,
            reading: Reading::Elapsed { nanos: elapsed_nanos },
            attributes,
        },
    );
    if elapsed_nanos > 0 {
        out.push(
            Measurement {
                instrument: Instrument::TransferThroughput,
                reading: Reading::Rate { bytes: bytes_transferred, nanos: elapsed_nanos },
                attributes,
            },
        );
    }
    assert(out@ =~= transfer_finished(
        total_lanes,
        striped,
        no_disk,
        status,
        bytes_transferred,
        elapsed_nanos,
    ));
    out
}

/// The nanoseconds between two marks of a clock that does not run backwards.
pub open spec fn elapsed_between(started: u64, now: u64) -> u128 {
    if now > started {
        (now - started) as u128
    } else {
        0u128
    }
}

pub fn elapsed_nanos(started: u64, now: u64) -> (r: u128)
    ensures
        r == elapsed_between(started, now),
{
    now.saturating_sub(started) as u128
}

/// Counts one lane stream: once when it starts, once when it ends.
#[derive(Debug, Clone, Copy, PartialEq, Eq, Structural)]
pub struct LaneStreamMetricGuard {
    pub lane_index: u32,
    pub total_lanes: u32,
    pub striped: bool,
    pub no_disk: bool,
    pub started_mark: u64,
    pub bytes_received: u64,
    pub finished: bool,
}

impl LaneStreamMetricGuard {
    /// What the stream is counted as when it ends now with this status; nothing where it was
    /// counted already.
    pub open spec fn ending(self, status: TransferStatus, now_mark: u64) -> Seq<Measurement> {
        if self.finished {
            Seq::empty()
        } else {
            lane_finished(
                self.lane_index,
                self.total_lanes,
                self.striped,
                self.no_disk,
                status,
                self.bytes_received,
                elapsed_between(self.started_mark, now_mark),
            )
        }
    }

    pub fn new(
        lane_index: u32,
        total_lanes: u32,
        striped: bool,
        no_disk: bool,
        now_mark: u64,
    ) -> (r: (Self, Vec<Measurement>))
        ensures
            r.0 == (LaneStreamMetricGuard {
                lane_index,
                total_lanes,
                striped,
                no_disk,
                started_mark: now_mark,
                bytes_received: 0,
                finished: false,
            }),
            r.1@ == lane_started(lane_index, total_lanes, striped, no_disk),
    {
        let measurements = record_lane_stream_started(lane_index, total_lanes, striped, no_disk);
        (
            LaneStreamMetricGuard {
                lane_index,
                total_lanes,
                striped,
                no_disk,
                started_mark: now_mark,
                bytes_received: 0,
                finished: false,
            },
            measurements,
        )
    }

    pub fn add_bytes(&mut self, bytes: u64)
        ensures
            *final(self) == (LaneStreamMetricGuard {
                bytes_received: if old(self).bytes_received + bytes <= u64::MAX {
                    (old(self).bytes_received + bytes) as u64
                } else {
                    u64::MAX
                },
                ..*old(self)
            }),
    {
        self.bytes_received = self.bytes_received.saturating_add(bytes);
    }

    pub fn finish(&mut self, status: TransferStatus, now_mark: u64) -> (r: Vec<Measurement>)
        ensures
            r@ == old(self).ending(status, now_mark),
            *final(self) == (LaneStreamMetricGuard { finished: true, ..*old(self) }),
    {
        if self.finished {
            return Vec::new();
        }
        self.finished = true;
        record_lane_stream_finished(
            self.lane_index,
            self.total_lanes,
            self.striped,
            self.no_disk,
            status,
            self.bytes_received,
            elapsed_nanos(self.started_mark, now_mark),
        )
    }
}

/// The sum of the changes that measurements make to the number of active lane streams.
pub open spec fn active_change(measurements: Seq<Measurement>) -> int
    decreases measurements.len(),
{
    if measurements.len() == 0 {
        0
    } else {
        active_change(measurements.drop_last()) + match measurements.last().reading {
            Reading::Change(delta) => delta as int,
            _ => 0,
        }
    }
}

/// A lane stream is active from its start to its end: starting it adds one to the active streams,
/// ending it takes one away, and ending it again takes nothing away.
pub proof fn active_streams_balance(
    guard: LaneStreamMetricGuard,
    status: TransferStatus,
    again: TransferStatus,
    now_mark: u64,
    later_mark: u64,
)
    requires
        !guard.finished,
    ensures
        active_change(
            lane_started(guard.lane_index, guard.total_lanes, guard.striped, guard.no_disk),
        ) == 1,
        active_change(guard.ending(status, now_mark)) == -1,
        active_change(
            LaneStreamMetricGuard { finished: true, ..guard }.ending(again, later_mark),
        ) == 0,
{
    reveal_with_fuel(active_change, 6);
    let started = lane_started(guard.lane_index, guard.total_lanes, guard.striped, guard.no_disk);
    assert(started.drop_last().drop_last() =~= Seq::empty());
    let ending = guard.ending(status, now_mark);
    let base = ending.take(4);
    if ending.len() == 5 {
        assert(ending.drop_last() =~= base);
    } else {
        assert(ending =~= base);
    }
    assert(base.drop_last().drop_last().drop_last().drop_last() =~= Seq::empty());
}

/// The time between two marks leads from the first to the second, and is none where the clock did not
/// move on.
pub proof fn elapsed_time_leads_from_mark_to_mark(started: u64, now: u64)
    ensures
        started <= now ==> started + elapsed_between(started, now) == now,
        now <= started ==> elapsed_between(started, now) == 0,
{
}

/// What is counted when a lane stream starts: one start for the lane, and one active stream more,
/// which is not told apart by lane.
pub proof fn starting_streams_are_counted_once(
    lane_index: u32,
    total_lanes: u32,
    striped: bool,
    no_disk: bool,
    i: int,
)
    requires
        0 <= i < lane_started(lane_index, total_lanes, striped, no_disk).len(),
    ensures
        ({
            let counted = lane_started(lane_index, total_lanes, striped, no_disk);
            &&& counted.len() == 2
            &&& counted[0].instrument != counted[1].instrument
            &&& match counted[i].instrument {
                Instrument::LaneStreamsStarted => counted[i].reading == Reading::Count(1)
                    && counted[i].attributes.lane_index == Some(lane_index),
                Instrument::LaneStreamsActive => counted[i].reading == Reading::Change(1)
                    && counted[i].attributes.lane_index is None,
                _ => false,
            }
            &&& counted[i].attributes.total_lanes == total_lanes
            &&& counted[i].attributes.striped == striped
            &&& counted[i].attributes.no_disk == no_disk
            &&& counted[i].attributes.status is None
        }),
{
}

/// What is counted when a lane stream ends: its end, its bytes and its time for the lane, each once
/// and in full, and one active stream less. There is a rate exactly where time has passed: that of the
/// bytes in the time. Everything says how the stream ended.
pub proof fn ended_streams_are_counted_in_full(
    lane_index: u32,
    total_lanes: u32,
    striped: bool,
    no_disk: bool,
    status: TransferStatus,
    bytes_received: u64,
    elapsed: u128,
    i: int,
    j: int,
)
    requires
        0 <= i < j < lane_finished(
            lane_index,
            total_lanes,
            striped,
            no_disk,
            status,
            bytes_received,
            elapsed,
        ).len(),
    ensures
        ({
            let counted = lane_finished(
                lane_index,
                total_lanes,
                striped,
                no_disk,
                status,
                bytes_received,
                elapsed,
            );
            &&& counted.len() == if elapsed == 0 {
                4nat
            } else {
                5nat
            }
            &&& counted[i].instrument != counted[j].instrument
            &&& forall|k: int|
                0 <= k < counted.len() ==> {
                    &&& (#[trigger] counted[k]).attributes == (Attributes {
                        lane_index: if counted[k].instrument == Instrument::LaneStreamsActive {
                            None
                        } else {
                            Some(lane_index)
                        },
                        total_lanes,
                        striped,
                        no_disk,
                        status: Some(status),
                    })
                    &&& match counted[k].instrument {
                        Instrument::LaneStreamsFinished => counted[k].reading == Reading::Count(1),
                        Instrument::LaneStreamsActive => counted[k].reading == Reading::Change(-1i64),
                        Instrument::LaneBytesReceived => counted[k].reading == Reading::Count(
                            bytes_received,
                        ),
                        Instrument::LaneDuration => counted[k].reading == (Reading::Elapsed {
                            nanos: elapsed,
                        }),
                        Instrument::LaneThroughput => elapsed > 0 && counted[k].reading == (
                        Reading::Rate { bytes: bytes_received, nanos: elapsed }),
                        _ => false,
                    }
                }
        }),
{
}

/// What is counted when a transfer ends: its end and its time, each once, and its rate exactly where
/// time has passed: that of its bytes in the time. Everything says how the transfer ended, and nothing
/// is told apart by lane.
pub proof fn ended_transfers_are_counted_in_full(
    total_lanes: u32,
    striped: bool,
    no_disk: bool,
    status: TransferStatus,
    bytes_transferred: u64,
    elapsed: u128,
    i: int,
    j: int,
)
    requires
        0 <= i < j < transfer_finished(
            total_lanes,
            striped,
            no_disk,
            status,
            bytes_transferred,
            elapsed,
        ).len(),
    ensures
        ({
            let counted = transfer_finished(
                total_lanes,
                striped,
                no_disk,
                status,
                bytes_transferred,
                elapsed,
            );
            &&& counted.len() == if elapsed == 0 {
                2nat
            } else {
                3nat
            }
            &&& counted[i].instrument != counted[j].instrument
            &&& forall|k: int|
                0 <= k < counted.len() ==> {
                    &&& (#[trigger] counted[k]).attributes == (Attributes {
                        lane_index: None,
                        total_lanes,
                        striped,
                        no_disk,
                        status: Some(status),
                    })
                    &&& match counted[k].instrument {
                        Instrument::TransferFinished => counted[k].reading == Reading::Count(1),
                        Instrument::TransferDuration => counted[k].reading == (Reading::Elapsed {
                            nanos: elapsed,
                        }),
                        Instrument::TransferThroughput => elapsed > 0 && counted[k].reading == (
                        Reading::Rate { bytes: bytes_transferred, nanos: elapsed }),
                        _ => false,
                    }
                }
        }),
{
}

/// A stream that ends is counted with its own lane, its bytes and the time since it started.
pub proof fn guards_count_their_own_stream(
    guard: LaneStreamMetricGuard,
    status: TransferStatus,
    now_mark: u64,
)
    requires
        !guard.finished,
        guard.started_mark <= now_mark,
    ensures
        guard.ending(status, now_mark) == lane_finished(
            guard.lane_index,
            guard.total_lanes,
            guard.striped,
            guard.no_disk,
            status,
            guard.bytes_received,
            (now_mark - guard.started_mark) as u128,
        ),
{
}

/// Every instrument has a name of its own.
pub proof fn instruments_have_names_of_their_own(a: Instrument, b: Instrument)
    ensures
        a.title() == b.title() ==> a == b,
{
    reveal_strlit("metra.quic.lane.streams.started.total");
    reveal_strlit("metra.quic.lane.streams.finished.total");
    reveal_strlit("metra.quic.lane.streams.active");
    reveal_strlit("metra.quic.lane.bytes.received.total");
    reveal_strlit("metra.quic.lane.duration.seconds");
    reveal_strlit("metra.quic.lane.throughput.gbps");
    reveal_strlit("metra.quic.transfer.finished.total");
    reveal_strlit("metra.quic.transfer.duration.seconds");
    reveal_strlit("metra.quic.transfer.throughput.gbps");
    assert(Instrument::LaneStreamsStarted.title().len() == 37);
    assert(Instrument::LaneStreamsFinished.title().len() == 38);
    assert(Instrument::LaneStreamsActive.title().len() == 30);
    assert(Instrument::LaneBytesReceived.title().len() == 36);
    assert(Instrument::LaneDuration.title().len() == 32);
    assert(Instrument::LaneThroughput.title().len() == 31);
    assert(Instrument::TransferFinished.title().len() == 34);
    assert(Instrument::TransferDuration.title().len() == 36);
    assert(Instrument::TransferThroughput.title().len() == 35);
    assert(Instrument::LaneBytesReceived.title()[11] == 'l');
    assert(Instrument::TransferDuration.title()[11] == 't');
}

} // verus!
