//! The session of one lane stream on the server, from admission to its last answer.
//!
//! A session moves from phase to phase. Each method is told what has just been done for the stream
//! and says what is to be done next.

use crate::messages::{
    QuicTransferCompleteAck, QuicTransferOpen, QuicTransferOpenAck, Timestamp, TransferStatus,
    TransferSummary,
};
use crate::metrics;
use crate::metrics::{elapsed_nanos, record_transfer_finished, LaneStreamMetricGuard, Measurement};
use crate::ids;
use crate::ids::uuid_display;
use crate::state;
use crate::state::{AppState, BeginFault, StateView, StatusChange};
use crate::text;
use crate::text::with_two_numbers;
use crate::upload;
use crate::upload::{admit_stream, OpenFault, StreamPlan};
use vstd::prelude::*;
use vstd::string::*;

verus! {

/// How a lane stream, or the transfer that it completes, ended.
#[derive(Debug)]
pub struct FinalizeResult {
    pub status: TransferStatus,
    pub bytes_transferred: u64,
    pub message: String,
}

/// Where a session stands.
#[derive(Debug, Clone, Copy, PartialEq, Eq, Structural)]
pub enum StreamPhase {
    PreparingDirectory,
    ResolvingResume,
    StoringStart,
    SizingStaging,
    Acknowledging,
    Receiving,
    RecordingProgress,
    Finalizing,
    Reporting,
    Done,
    Aborted,
}

/// What is to be done next for a stream.
#[derive(Debug)]
pub enum StreamAction {
    /// Load the checkpoint, or write a new one, and resume the lane in it.
    ResumeLane,
    /// Find out how long the staging file is.
    MeasureStaging,
    /// Store the summary of the transfer, which is running from now on.
    StoreStart(TransferSummary),
    /// Give the staging file its full size.
    SizeStaging { file_size_bytes: u64 },
    /// Tell the client where to resume.
    SendOpenAck(QuicTransferOpenAck),
    /// Receive the payload of the lane.
    ReceivePayload { resume_offset: u64, expected_bytes: u64 },
    /// Record in the checkpoint that the lane has come this far.
    RecordProgress { offset: u64 },
    /// Finalize the transfer if all lanes are complete.
    FinalizeStriped,
    /// Finalize a transfer whose payload was dropped.
    FinalizeInMemory { bytes_received: u64 },
    /// Finalize a transfer whose payload is in the staging file.
    FinalizeOnDisk { bytes_received: u64 },
}

/// Why an admitted stream does not start.
#[derive(Debug, Clone, Copy, PartialEq, Eq, Structural)]
pub enum StartFault {
    StagingTooLarge { staged: u64, file_size: u64 },
    UnknownTransfer { transfer_id: u128 },
    MetadataChanged,
}

impl StartFault {
    /// The fault in words.
    pub open spec fn text(self) -> Seq<char> {
        match self {
            StartFault::StagingTooLarge { staged, file_size } =>
                "staging file larger than expected size: "@ + text::decimal(staged as nat) + " > "@
                    + text::decimal(file_size as nat),
            StartFault::UnknownTransfer { transfer_id } => "unknown transfer_id "@ + ids::id_text(
                transfer_id,
            ),
            StartFault::MetadataChanged => "transfer metadata changed while opening stream"@,
        }
    }

    pub fn message(&self) -> (r: String)
        ensures
            r@ == self.text(),
    {
        match *self {
            StartFault::StagingTooLarge { staged, file_size } => with_two_numbers(
                "staging file larger than expected size: ",
                staged,
                " > ",
                file_size,
            ),
            StartFault::UnknownTransfer { transfer_id } => {
                let mut message = "unknown transfer_id ".to_owned();
                message.append(uuid_display(transfer_id).as_str());
                message
            },
            StartFault::MetadataChanged =>
                "transfer metadata changed while opening stream".to_owned(),
        }
    }
}

/// What a session knows.
pub struct SessionView {
    pub plan: StreamPlan,
    pub phase: StreamPhase,
    pub resume_offset: u64,
    pub guard: Option<LaneStreamMetricGuard>,
}

/// Whether the transfer was put into the running state and that is stored, so that a failure from
/// here on fails the transfer.
pub open spec fn is_started(phase: StreamPhase) -> bool {
    match phase {
        StreamPhase::SizingStaging | StreamPhase::Acknowledging | StreamPhase::Receiving
        | StreamPhase::RecordingProgress | StreamPhase::Finalizing | StreamPhase::Reporting => true,
        _ => false,
    }
}

/// Whether the resume offset of a session in this phase is settled.
pub open spec fn is_resolved(phase: StreamPhase) -> bool {
    phase == StreamPhase::StoringStart || is_started(phase)
}

impl SessionView {
    /// The resume offset lies in the range of the lane, and the stream is being counted from the
    /// acknowledgement to the end.
    pub open spec fn wf(self) -> bool {
        &&& self.plan.wf()
        &&& is_resolved(self.phase) ==> self.plan.range_start <= self.resume_offset
            <= self.plan.range_end_exclusive
        &&& match self.phase {
            StreamPhase::Receiving => self.guard matches Some(guard) && !guard.finished
                && guard.bytes_received == 0,
            StreamPhase::RecordingProgress | StreamPhase::Finalizing => self.guard matches Some(
                guard,
            ) && !guard.finished,
            StreamPhase::Reporting | StreamPhase::Done => self.guard matches Some(guard)
                && guard.finished,
            StreamPhase::Aborted => self.guard matches Some(guard) ==> guard.finished,
            _ => self.guard is None,
        }
    }

    /// The bytes that the client has still to send.
    pub open spec fn expected_bytes(self) -> int {
        self.plan.range_end_exclusive - self.resume_offset
    }

    /// What the stream is counted as when it ends now with this status.
    pub open spec fn ending(self, status: TransferStatus, now_mark: u64) -> Seq<Measurement> {
        match self.guard {
            Some(guard) => guard.ending(status, now_mark),
            None => Seq::empty(),
        }
    }

    /// The count of the stream, with nothing more to be counted.
    pub open spec fn ended_guard(self) -> Option<LaneStreamMetricGuard> {
        match self.guard {
            Some(guard) => Some(LaneStreamMetricGuard { finished: true, ..guard }),
            None => None,
        }
    }

    /// How the transfer of this stream is finalized once its payload is there.
    pub open spec fn finalize_action(self, bytes_received: u64) -> StreamAction {
        if self.plan.striped {
            StreamAction::FinalizeStriped
        } else if self.plan.discard_payload {
            StreamAction::FinalizeInMemory { bytes_received }
        } else {
            StreamAction::FinalizeOnDisk { bytes_received }
        }
    }
}

/// The answer that accepts a stream.
pub open spec fn is_open_ack(ack: QuicTransferOpenAck, session: SessionView) -> bool {
    &&& ack.ok
    &&& ack.resume_offset_bytes == session.resume_offset
    &&& ack.message@ == "transfer stream accepted"@
    &&& ack.payload_codec@ == session.plan.payload_codec.wire_name()
    &&& ack.receive_write_pipeline_depth == session.plan.receive_write_pipeline_depth
}

/// The effect of putting the transfer of a session into the running state, with the lane resuming
/// at `resume` and `bytes` of the file there.
pub open spec fn is_beginning<L>(
    before: SessionView,
    state_before: StateView<L>,
    resume: u64,
    bytes: u64,
    now: Timestamp,
    after: SessionView,
    state_after: StateView<L>,
    r: Result<StreamAction, StartFault>,
) -> bool {
    let id = before.plan.transfer_id;
    match state_before.begin_fault(
        id,
        before.plan.file_size_bytes,
        before.plan.resume_chunk_size_bytes,
    ) {
        Some(BeginFault::UnknownTransfer { transfer_id }) => {
            &&& r == Err::<StreamAction, StartFault>(StartFault::UnknownTransfer { transfer_id })
            &&& after == (SessionView { phase: StreamPhase::Aborted, ..before })
            &&& state_after == state_before
        },
        Some(BeginFault::MetadataChanged) => {
            &&& r == Err::<StreamAction, StartFault>(StartFault::MetadataChanged)
            &&& after == (SessionView { phase: StreamPhase::Aborted, ..before })
            &&& state_after == state_before
        },
        None => {
            let summary = state::settled(
                state_before.transfers[id],
                TransferStatus::Running,
                bytes,
                now,
            );
            &&& r == Ok::<StreamAction, StartFault>(StreamAction::StoreStart(summary))
            &&& after == (SessionView {
                phase: StreamPhase::StoringStart,
                resume_offset: resume,
                ..before
            })
            &&& state_after == state_before.with_transfer(summary)
        },
    }
}

/// One lane stream.
#[derive(Debug)]
pub struct StreamSession {
    plan: StreamPlan,
    phase: StreamPhase,
    resume_offset: u64,
    guard: Option<LaneStreamMetricGuard>,
}

impl View for StreamSession {
    type V = SessionView;

    closed spec fn view(&self) -> SessionView {
        SessionView {
            plan: self.plan,
            phase: self.phase,
            resume_offset: self.resume_offset,
            guard: self.guard,
        }
    }
}

impl StreamSession {
    /// Admits a lane stream, or says why not.
    pub fn open<L>(state: &mut AppState<L>, open: &QuicTransferOpen) -> (r: Result<
        StreamSession,
        OpenFault,
    >)
        requires
            old(state).wf(),
        ensures
            final(state).wf(),
            match r {
                Ok(session) => {
                    &&& upload::open_fault(old(state)@, *open) is None
                    &&& session@.wf()
                    &&& session@.phase == StreamPhase::PreparingDirectory
                    &&& session@.resume_offset == 0
                    &&& session@.guard is None
                    &&& session@.plan.answers(*open, old(state)@.transfers[open.transfer_id])
                    &&& final(state)@ == (StateView {
                        lane_writers: old(state)@.lane_writers.insert(
                            (open.transfer_id, open.lane_index),
                        ),
                        ..old(state)@
                    })
                },
                Err(fault) => {
                    &&& upload::open_fault(old(state)@, *open) == Some(fault)
                    &&& final(state)@ == old(state)@
                },
            },
    {
        match admit_stream(state, open) {
            Ok(plan) => Ok(
                StreamSession {
                    plan,
                    phase: StreamPhase::PreparingDirectory,
                    resume_offset: 0,
                    guard: None,
                },
            ),
            Err(fault) => Err(fault),
        }
    }

    pub fn plan(&self) -> (r: &StreamPlan)
        ensures
            *r == self@.plan,
    {
        &self.plan
    }

    pub fn phase(&self) -> (r: StreamPhase)
        ensures
            r == self@.phase,
    {
        self.phase
    }

    pub fn resume_offset(&self) -> (r: u64)
        ensures
            r == self@.resume_offset,
    {
        self.resume_offset
    }

    fn begin<L>(
        &mut self,
        state: &mut AppState<L>,
        resume_offset: u64,
        bytes_transferred: u64,
        now: Timestamp,
    ) -> (r: Result<StreamAction, StartFault>)
        requires
            old(self)@.wf(),
            old(self)@.guard is None,
            old(self)@.plan.range_start <= resume_offset <= old(self)@.plan.range_end_exclusive,
            bytes_transferred <= old(self)@.plan.file_size_bytes,
            old(state).wf(),
        ensures
            final(self)@.wf(),
            final(state).wf(),
            is_beginning(
                old(self)@,
                old(state)@,
                resume_offset,
                bytes_transferred,
                now,
                final(self)@,
                final(state)@,
                r,
            ),
    {
        match state.begin_stream(
            self.plan.transfer_id,
            self.plan.file_size_bytes,
            self.plan.resume_chunk_size_bytes,
            bytes_transferred,
            now,
        ) {
            Ok(summary) => {
                self.resume_offset = resume_offset;
                self.phase = StreamPhase::StoringStart;
                Ok(StreamAction::StoreStart(summary))
            },
            Err(fault) => {
                self.phase = StreamPhase::Aborted;
                match fault {
                    BeginFault::UnknownTransfer { transfer_id } => Err(
                        StartFault::UnknownTransfer { transfer_id },
                    ),
                    BeginFault::MetadataChanged => Err(StartFault::MetadataChanged),
                }
            },
        }
    }

    /// The directory of the tenant and user is there.
    pub fn directory_ready<L>(&mut self, state: &mut AppState<L>, now: Timestamp) -> (r: Result<
        StreamAction,
        StartFault,
    >)
        requires
            old(self)@.wf(),
            old(self)@.phase == StreamPhase::PreparingDirectory,
            old(state).wf(),
        ensures
            final(self)@.wf(),
            final(state).wf(),
            ({
                let plan = old(self)@.plan;
                let bytes = if plan.bytes_transferred < plan.file_size_bytes {
                    plan.bytes_transferred
                } else {
                    plan.file_size_bytes
                };
                if plan.striped || !plan.discard_payload {
                    &&& r == Ok::<StreamAction, StartFault>(
                        if plan.striped {
                            StreamAction::ResumeLane
                        } else {
                            StreamAction::MeasureStaging
                        },
                    )
                    &&& final(self)@ == (SessionView {
                        phase: StreamPhase::ResolvingResume,
                        ..old(self)@
                    })
                    &&& final(state)@ == old(state)@
                } else {
                    is_beginning(
                        old(self)@,
                        old(state)@,
                        bytes,
                        bytes,
                        now,
                        final(self)@,
                        final(state)@,
                        r,
                    )
                }
            }),
    {
        if self.plan.striped {
            self.phase = StreamPhase::ResolvingResume;
            return Ok(StreamAction::ResumeLane);
        }
        if !self.plan.discard_payload {
            self.phase = StreamPhase::ResolvingResume;
            return Ok(StreamAction::MeasureStaging);
        }
        let bytes: u64 = if self.plan.bytes_transferred < self.plan.file_size_bytes {
            self.plan.bytes_transferred
        } else {
            self.plan.file_size_bytes
        };
        self.begin(state, bytes, bytes, now)
    }

    /// The checkpoint has the lane resume at this offset, and says how many bytes all lanes have
    /// carried.
    pub fn lane_resumed<L>(
        &mut self,
        state: &mut AppState<L>,
        resume_offset: u64,
        total_transferred: u64,
        now: Timestamp,
    ) -> (r: Result<StreamAction, StartFault>)
        requires
            old(self)@.wf(),
            old(self)@.phase == StreamPhase::ResolvingResume,
            old(self)@.plan.striped,
            old(self)@.plan.range_start <= resume_offset <= old(self)@.plan.range_end_exclusive,
            old(state).wf(),
        ensures
            final(self)@.wf(),
            final(state).wf(),
            is_beginning(
                old(self)@,
                old(state)@,
                resume_offset,
                if total_transferred < old(self)@.plan.file_size_bytes {
                    total_transferred
                } else {
                    old(self)@.plan.file_size_bytes
                },
                now,
                final(self)@,
                final(state)@,
                r,
            ),
    {
        let bytes: u64 = if total_transferred < self.plan.file_size_bytes {
            total_transferred
        } else {
            self.plan.file_size_bytes
        };
        self.begin(state, resume_offset, bytes, now)
    }

    /// The staging file has this length, or there is none.
    pub fn staging_measured<L>(
        &mut self,
        state: &mut AppState<L>,
        staged: Option<u64>,
        now: Timestamp,
    ) -> (r: Result<StreamAction, StartFault>)
        requires
            old(self)@.wf(),
            old(self)@.phase == StreamPhase::ResolvingResume,
            !old(self)@.plan.striped,
            old(state).wf(),
        ensures
            final(self)@.wf(),
            final(state).wf(),
            ({
                let resume = match staged {
                    Some(len) => len,
                    None => 0,
                };
                if resume > old(self)@.plan.file_size_bytes {
                    &&& r == Err::<StreamAction, StartFault>(
                        StartFault::StagingTooLarge {
                            staged: resume,
                            file_size: old(self)@.plan.file_size_bytes,
                        },
                    )
                    &&& final(self)@ == (SessionView { phase: StreamPhase::Aborted, ..old(self)@ })
                    &&& final(state)@ == old(state)@
                } else {
                    is_beginning(
                        old(self)@,
                        old(state)@,
                        resume,
                        resume,
                        now,
                        final(self)@,
                        final(state)@,
                        r,
                    )
                }
            }),
    {
        let resume: u64 = match staged {
            Some(len) => len,
            None => 0,
        };
        if resume > self.plan.file_size_bytes {
            self.phase = StreamPhase::Aborted;
            return Err(
                StartFault::StagingTooLarge {
                    staged: resume,
                    file_size: self.plan.file_size_bytes,
                },
            );
        }
        self.begin(state, resume, resume, now)
    }

    fn open_ack(&self) -> (r: QuicTransferOpenAck)
        ensures
            is_open_ack(r, self@),
    {
        QuicTransferOpenAck {
            ok: true,
            resume_offset_bytes: self.resume_offset,
            message: "transfer stream accepted".to_owned(),
            payload_codec: self.plan.payload_codec.as_wire().to_owned(),
            receive_write_pipeline_depth: self.plan.receive_write_pipeline_depth,
        }
    }

    /// The start of the transfer is stored. The clock runs from the first stream of a transfer.
    pub fn start_stored<L>(&mut self, state: &mut AppState<L>, now_mark: u64) -> (r: StreamAction)
        requires
            old(self)@.wf(),
            old(self)@.phase == StreamPhase::StoringStart,
            old(state).wf(),
        ensures
            final(self)@.wf(),
            final(state).wf(),
            final(state)@ == old(state)@.with_start_mark(old(self)@.plan.transfer_id, now_mark),
            if old(self)@.plan.striped && !old(self)@.plan.discard_payload {
                &&& r == (StreamAction::SizeStaging {
                    file_size_bytes: old(self)@.plan.file_size_bytes,
                })
                &&& final(self)@ == (SessionView {
                    phase: StreamPhase::SizingStaging,
                    ..old(self)@
                })
            } else {
                &&& r matches StreamAction::SendOpenAck(ack) && is_open_ack(ack, old(self)@)
                &&& final(self)@ == (SessionView {
                    phase: StreamPhase::Acknowledging,
                    ..old(self)@
                })
            },
    {
        state.mark_transfer_started_if_absent(self.plan.transfer_id, now_mark);
        if self.plan.striped && !self.plan.discard_payload {
            self.phase = StreamPhase::SizingStaging;
            StreamAction::SizeStaging { file_size_bytes: self.plan.file_size_bytes }
        } else {
            let ack = self.open_ack();
            self.phase = StreamPhase::Acknowledging;
            StreamAction::SendOpenAck(ack)
        }
    }

    /// The staging file has its full size.
    pub fn staging_sized(&mut self) -> (r: StreamAction)
        requires
            old(self)@.wf(),
            old(self)@.phase == StreamPhase::SizingStaging,
        ensures
            final(self)@.wf(),
            r matches StreamAction::SendOpenAck(ack) && is_open_ack(ack, old(self)@),
            final(self)@ == (SessionView { phase: StreamPhase::Acknowledging, ..old(self)@ }),
    {
        let ack = self.open_ack();
        self.phase = StreamPhase::Acknowledging;
        StreamAction::SendOpenAck(ack)
    }

    /// The client knows where to resume. From here on the stream is counted.
    pub fn open_ack_sent(&mut self, now_mark: u64) -> (r: (StreamAction, Vec<Measurement>))
        requires
            old(self)@.wf(),
            old(self)@.phase == StreamPhase::Acknowledging,
        ensures
            final(self)@.wf(),
            r.0 == (StreamAction::ReceivePayload {
                resume_offset: old(self)@.resume_offset,
                expected_bytes: old(self)@.expected_bytes() as u64,
            }),
            r.0 matches StreamAction::ReceivePayload { resume_offset, expected_bytes }
                && resume_offset + expected_bytes == old(self)@.plan.range_end_exclusive,
            r.1@ == metrics::lane_started(
                old(self)@.plan.lane_index,
                old(self)@.plan.total_lanes,
                old(self)@.plan.striped,
                old(self)@.plan.discard_payload,
            ),
            final(self)@ == (SessionView {
                phase: StreamPhase::Receiving,
                guard: Some(
                    LaneStreamMetricGuard {
                        lane_index: old(self)@.plan.lane_index,
                        total_lanes: old(self)@.plan.total_lanes,
                        striped: old(self)@.plan.striped,
                        no_disk: old(self)@.plan.discard_payload,
                        started_mark: now_mark,
                        bytes_received: 0,
                        finished: false,
                    },
                ),
                ..old(self)@
            }),
    {
        let (guard, measurements) = LaneStreamMetricGuard::new(
            self.plan.lane_index,
            self.plan.total_lanes,
            self.plan.striped,
            self.plan.discard_payload,
            now_mark,
        );
        self.guard = Some(guard);
        self.phase = StreamPhase::Receiving;
        let expected_bytes: u64 = self.plan.range_end_exclusive - self.resume_offset;
        (
            StreamAction::ReceivePayload { resume_offset: self.resume_offset, expected_bytes },
            measurements,
        )
    }

    /// This much payload has come in.
    pub fn payload_received(&mut self, bytes: u64) -> (r: StreamAction)
        requires
            old(self)@.wf(),
            old(self)@.phase == StreamPhase::Receiving,
            bytes <= old(self)@.expected_bytes(),
        ensures
            final(self)@.wf(),
            final(self)@.plan == old(self)@.plan,
            final(self)@.resume_offset == old(self)@.resume_offset,
            final(self)@.guard == Some(
                LaneStreamMetricGuard { bytes_received: bytes, ..old(self)@.guard->0 },
            ),
            ({
                let offset = (old(self)@.resume_offset + bytes) as u64;
                if old(self)@.plan.striped && old(self)@.plan.discard_payload {
                    &&& r == (StreamAction::RecordProgress { offset })
                    &&& final(self)@.phase == StreamPhase::RecordingProgress
                } else {
                    &&& r == old(self)@.finalize_action(offset)
                    &&& final(self)@.phase == StreamPhase::Finalizing
                    &&& old(self)@.plan.striped ==> r is FinalizeStriped
                    &&& !old(self)@.plan.striped && old(self)@.plan.discard_payload
                        ==> r == (StreamAction::FinalizeInMemory { bytes_received: offset })
                    &&& !old(self)@.plan.striped && !old(self)@.plan.discard_payload
                        ==> r == (StreamAction::FinalizeOnDisk { bytes_received: offset })
                }
            }),
    {
        let offset: u64 = self.resume_offset + bytes;
        match self.guard {
            Some(mut guard) => {
                guard.add_bytes(bytes);
                self.guard = Some(guard);
            },
            None => {},
        }
        if self.plan.striped && self.plan.discard_payload {
            self.phase = StreamPhase::RecordingProgress;
            return StreamAction::RecordProgress { offset };
        }
        self.phase = StreamPhase::Finalizing;
        if self.plan.striped {
            StreamAction::FinalizeStriped
        } else if self.plan.discard_payload {
            StreamAction::FinalizeInMemory { bytes_received: offset }
        } else {
            StreamAction::FinalizeOnDisk { bytes_received: offset }
        }
    }

    /// The checkpoint says how far the lane has come.
    pub fn progress_recorded(&mut self) -> (r: StreamAction)
        requires
            old(self)@.wf(),
            old(self)@.phase == StreamPhase::RecordingProgress,
        ensures
            final(self)@.wf(),
            r == StreamAction::FinalizeStriped,
            final(self)@ == (SessionView { phase: StreamPhase::Finalizing, ..old(self)@ }),
    {
        self.phase = StreamPhase::Finalizing;
        StreamAction::FinalizeStriped
    }

    /// The stream has a result. Gives the answer to the client and what is counted: the stream,
    /// and the transfer where it is over and its clock was running.
    pub fn finalized<L>(
        &mut self,
        state: &mut AppState<L>,
        result: FinalizeResult,
        now: Timestamp,
        now_mark: u64,
    ) -> (r: (QuicTransferCompleteAck, Vec<Measurement>))
        requires
            old(self)@.wf(),
            old(self)@.phase == StreamPhase::Finalizing,
            old(state).wf(),
        ensures
            final(self)@.wf(),
            final(state).wf(),
            r.0 == (QuicTransferCompleteAck {
                ok: result.status == TransferStatus::Completed,
                status: result.status,
                bytes_received: result.bytes_transferred,
                message: result.message,
                updated_at: now,
            }),
            final(self)@ == (SessionView {
                phase: StreamPhase::Reporting,
                guard: old(self)@.ended_guard(),
                ..old(self)@
            }),
            ({
                let plan = old(self)@.plan;
                let started_at = old(state)@.started_at;
                let over = state::is_terminal(result.status);
                &&& r.1@ == old(self)@.ending(result.status, now_mark) + (if over
                    && started_at.contains_key(plan.transfer_id) {
                    metrics::transfer_finished(
                        plan.total_lanes,
                        plan.striped,
                        plan.discard_payload,
                        result.status,
                        result.bytes_transferred,
                        metrics::elapsed_between(started_at[plan.transfer_id], now_mark),
                    )
                } else {
                    Seq::empty()
                })
                &&& final(state)@ == (if over {
                    StateView { started_at: started_at.remove(plan.transfer_id), ..old(state)@ }
                } else {
                    old(state)@
                })
            }),
    {
        let mut measurements: Vec<Measurement> = Vec::new();
        match self.guard {
            Some(mut guard) => {
                measurements = guard.finish(result.status, now_mark);
                self.guard = Some(guard);
            },
            None => {},
        }
        let over = match result.status {
            TransferStatus::Completed | TransferStatus::Failed => true,
            TransferStatus::Queued | TransferStatus::Running => false,
        };
        let ghost ending = measurements@;
        if over {
            match state.take_transfer_started_at(self.plan.transfer_id) {
                Some(started) => {
                    let mut of_transfer = record_transfer_finished(
                        self.plan.total_lanes,
                        self.plan.striped,
                        self.plan.discard_payload,
                        result.status,
                        result.bytes_transferred,
                        elapsed_nanos(started, now_mark),
                    );
                    measurements.append(&mut of_transfer);
                },
                None => {
                    assert(measurements@ =~= ending + Seq::empty());
                },
            }
        } else {
            assert(measurements@ =~= ending + Seq::empty());
        }
        self.phase = StreamPhase::Reporting;
        (
            QuicTransferCompleteAck {
                ok: result.status == TransferStatus::Completed,
                status: result.status,
                bytes_received: result.bytes_transferred,
                message: result.message,
                updated_at: now,
            },
            measurements,
        )
    }

    /// The client has its answer.
    pub fn completion_sent(&mut self)
        requires
            old(self)@.wf(),
            old(self)@.phase == StreamPhase::Reporting,
        ensures
            final(self)@.wf(),
            final(self)@ == (SessionView { phase: StreamPhase::Done, ..old(self)@ }),
    {
        self.phase = StreamPhase::Done;
    }

    /// Something that was to be done for the stream failed. A transfer that this stream had started
    /// and that is still running fails; that is to be stored.
    pub fn broken<L>(&mut self, state: &mut AppState<L>, now: Timestamp, now_mark: u64) -> (r: (
        Option<StatusChange>,
        Vec<Measurement>,
    ))
        requires
            old(self)@.wf(),
            old(state).wf(),
        ensures
            final(self)@.wf(),
            final(state).wf(),
            final(self)@ == (SessionView {
                phase: StreamPhase::Aborted,
                guard: old(self)@.ended_guard(),
                ..old(self)@
            }),
            r.1@ == old(self)@.ending(TransferStatus::Failed, now_mark),
            ({
                let id = old(self)@.plan.transfer_id;
                let started = is_started(old(self)@.phase);
                &&& final(state)@ == (if started {
                    old(state)@.with_failure(id, now)
                } else {
                    old(state)@
                })
                &&& r.0 is Some <==> started && old(state)@.is_running(id)
                &&& r.0 matches Some(change) ==> change.terminal && change.snapshot
                    == final(state)@.transfer(id)
                &&& started <==> old(self)@.phase != StreamPhase::PreparingDirectory
                    && old(self)@.phase != StreamPhase::ResolvingResume && old(self)@.phase
                    != StreamPhase::StoringStart && old(self)@.phase != StreamPhase::Done
                    && old(self)@.phase != StreamPhase::Aborted
            }),
    {
        let started = match self.phase {
            StreamPhase::SizingStaging | StreamPhase::Acknowledging | StreamPhase::Receiving
            | StreamPhase::RecordingProgress | StreamPhase::Finalizing | StreamPhase::Reporting => {
                true
            },
            _ => false,
        };
        let measurements = self.end_count(now_mark);
        self.phase = StreamPhase::Aborted;
        if started {
            (state.fail_running_transfer(self.plan.transfer_id, now), measurements)
        } else {
            (None, measurements)
        }
    }

    fn end_count(&mut self, now_mark: u64) -> (r: Vec<Measurement>)
        ensures
            r@ == old(self)@.ending(TransferStatus::Failed, now_mark),
            final(self)@ == (SessionView { guard: old(self)@.ended_guard(), ..old(self)@ }),
    {
        match self.guard {
            Some(mut guard) => {
                let measurements = guard.finish(TransferStatus::Failed, now_mark);
                self.guard = Some(guard);
                measurements
            },
            None => Vec::new(),
        }
    }

    /// Ends the session, in whatever phase it is: the write lease of the lane is given back, and a
    /// stream that was left unfinished is counted as failed.
    pub fn close<L>(self, state: &mut AppState<L>, now_mark: u64) -> (r: Vec<Measurement>)
        requires
            self@.wf(),
            old(state).wf(),
        ensures
            final(state).wf(),
            r@ == self@.ending(TransferStatus::Failed, now_mark),
            final(state)@ == (StateView {
                lane_writers: old(state)@.lane_writers.remove(
                    (self@.plan.transfer_id, self@.plan.lane_index),
                ),
                ..old(state)@
            }),
    {
        let mut session = self;
        state.release_lane_writer(session.plan.transfer_id, session.plan.lane_index);
        session.end_count(now_mark)
    }
}

/// Beginning a stream keeps every transfer within the size of its file, leaves all other transfers
/// alone, and has the transfer resume with bytes that the file has.
pub proof fn beginning_a_stream_keeps_bytes_within_the_file<L>(
    before: SessionView,
    state_before: StateView<L>,
    resume: u64,
    bytes: u64,
    now: Timestamp,
    after: SessionView,
    state_after: StateView<L>,
    r: Result<StreamAction, StartFault>,
    other: u128,
)
    requires
        is_beginning(before, state_before, resume, bytes, now, after, state_after, r),
        state_before.bytes_fit(),
        forall|id: u128|
            #![trigger state_before.transfers[id]]
            state_before.transfers.contains_key(id) ==> state_before.transfers[id].transfer_id
                == id,
        other != before.plan.transfer_id,
    ensures
        state_after.bytes_fit(),
        state_after.transfer(other) == state_before.transfer(other),
        r is Ok ==> state_after.is_running(before.plan.transfer_id),
        r is Err ==> state_after == state_before,
{
}

/// What a stream resumes from and what it is still to receive make up the range of its lane.
pub proof fn resumed_and_expected_bytes_fill_the_range(session: SessionView)
    requires
        session.wf(),
        is_resolved(session.phase),
    ensures
        session.expected_bytes() >= 0,
        (session.resume_offset - session.plan.range_start) + session.expected_bytes()
            == session.plan.range_end_exclusive - session.plan.range_start,
{
}

/// A stream that breaks after it has started leaves its transfer failed, unless the transfer had ended
/// already; one that breaks before leaves the registry alone.
pub proof fn broken_streams_settle_their_transfer<L>(
    session: SessionView,
    state: StateView<L>,
    now: Timestamp,
)
    requires
        forall|id: u128|
            #![trigger state.transfers[id]]
            state.transfers.contains_key(id) ==> state.transfers[id].transfer_id == id,
        is_started(session.phase),
    ensures
        ({
            let id = session.plan.transfer_id;
            let after = state.with_failure(id, now);
            &&& !after.is_running(id)
            &&& state.is_running(id) ==> after.transfers[id].status == TransferStatus::Failed
            &&& !state.is_running(id) ==> after == state
            &&& state.is_running(id) && state.bytes_fit() ==> after.transfers[id].bytes_transferred
                == state.transfers[id].bytes_transferred
        }),
{
}

/// A failure fails the transfer from the moment that its start is stored until the client has its
/// answer: in no phase before, and in none after.
pub proof fn a_stream_answers_for_its_transfer_until_it_is_reported(phase: StreamPhase)
    ensures
        is_started(phase) <==> {
            &&& phase != StreamPhase::PreparingDirectory
            &&& phase != StreamPhase::ResolvingResume
            &&& phase != StreamPhase::StoringStart
            &&& phase != StreamPhase::Done
            &&& phase != StreamPhase::Aborted
        },
        is_resolved(phase) <==> is_started(phase) || phase == StreamPhase::StoringStart,
{
}

/// A stream begins exactly where its transfer is known with the sizes that the stream was admitted
/// with. Then the transfer runs, with the bytes that it resumes with or the size of its file where
/// that is less, the time of change is the time of the call, and the session resumes where it was
/// told. Otherwise nothing changes but that the session is over.
pub proof fn streams_begin_where_they_resume<L>(
    before: SessionView,
    state_before: StateView<L>,
    resume: u64,
    bytes: u64,
    now: Timestamp,
    after: SessionView,
    state_after: StateView<L>,
    r: Result<StreamAction, StartFault>,
)
    requires
        is_beginning(before, state_before, resume, bytes, now, after, state_after, r),
        forall|id: u128|
            #![trigger state_before.transfers[id]]
            state_before.transfers.contains_key(id) ==> state_before.transfers[id].transfer_id
                == id,
    ensures
        ({
            let id = before.plan.transfer_id;
            let known = state_before.transfers[id];
            let running = TransferSummary {
                status: TransferStatus::Running,
                bytes_transferred: vstd::math::min(
                    bytes as int,
                    known.file_size_bytes as int,
                ) as u64,
                updated_at: now,
                ..known
            };
            &&& r is Ok <==> state_before.transfers.contains_key(id) && known.file_size_bytes
                == before.plan.file_size_bytes && known.resume_chunk_size_bytes
                == before.plan.resume_chunk_size_bytes
            &&& r is Ok ==> {
                &&& r == Ok::<StreamAction, StartFault>(StreamAction::StoreStart(running))
                &&& state_after == (StateView {
                    transfers: state_before.transfers.insert(id, running),
                    ..state_before
                })
                &&& after.resume_offset == resume
                &&& after.phase == StreamPhase::StoringStart
                &&& after.plan == before.plan
                &&& after.guard == before.guard
            }
            &&& r is Err ==> {
                &&& state_after == state_before
                &&& after == (SessionView { phase: StreamPhase::Aborted, ..before })
                &&& r->Err_0 == (if state_before.transfers.contains_key(id) {
                    StartFault::MetadataChanged
                } else {
                    StartFault::UnknownTransfer { transfer_id: id }
                })
            }
        }),
{
}

/// The answer that accepts a stream tells the client where to resume, which codec to write with and
/// how many buffers are written with.
pub proof fn open_acks_say_where_to_resume(ack: QuicTransferOpenAck, session: SessionView)
    requires
        is_open_ack(ack, session),
    ensures
        ack.ok,
        ack.resume_offset_bytes == session.resume_offset,
        ack.payload_codec@ == session.plan.payload_codec.wire_name(),
        ack.receive_write_pipeline_depth == session.plan.receive_write_pipeline_depth,
{
}

/// A transfer in one stream whose payload is kept is finalized on disk, one whose payload is dropped
/// in memory, and a striped transfer as a whole. What is finalized is what has come in.
pub proof fn payloads_are_finalized_where_they_are(session: SessionView, bytes_received: u64)
    ensures
        ({
            let action = session.finalize_action(bytes_received);
            &&& action is FinalizeStriped <==> session.plan.striped
            &&& action is FinalizeInMemory <==> !session.plan.striped
                && session.plan.discard_payload
            &&& action is FinalizeOnDisk <==> !session.plan.striped
                && !session.plan.discard_payload
            &&& action matches StreamAction::FinalizeInMemory { bytes_received: bytes } ==> bytes
                == bytes_received
            &&& action matches StreamAction::FinalizeOnDisk { bytes_received: bytes } ==> bytes
                == bytes_received
        }),
{
}

/// A stream that ends is counted once: a count that has ended counts nothing more.
pub proof fn ended_streams_are_not_counted_again(
    session: SessionView,
    status: TransferStatus,
    now_mark: u64,
)
    ensures
        (SessionView { guard: session.ended_guard(), ..session }).ending(status, now_mark)
            == Seq::<Measurement>::empty(),
        session.guard is None ==> session.ending(status, now_mark) == Seq::<Measurement>::empty(),
{
}

} // verus!
