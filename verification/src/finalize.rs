//! Ending a transfer: when it is complete, and what becomes of its file.

use crate::checkpoint;
use crate::checkpoint::TransferCheckpoint;
use crate::ids;
use crate::ids::uuid_display;
use crate::messages::{Timestamp, TransferStatus, TransferSummary};
use crate::session::FinalizeResult;
use crate::state;
use crate::state::{AppState, StateView, StatusChange};
use crate::text;
use crate::text::with_two_numbers;
use vstd::prelude::*;
use vstd::string::*;

verus! {

/// A transfer that the registry does not know.
#[derive(Debug, Clone, Copy, PartialEq, Eq, Structural)]
pub struct UnknownTransfer {
    pub transfer_id: u128,
}

impl UnknownTransfer {
    pub fn message(&self) -> (r: String)
        ensures
            r@ == "unknown transfer_id "@ + ids::id_text(self.transfer_id),
    {
        let mut message = "unknown transfer_id ".to_owned();
        message.append(uuid_display(self.transfer_id).as_str());
        message
    }
}

/// How to go on with a transfer once a stream has ended.
#[derive(Debug)]
pub enum FinalizeStep {
    /// The transfer was completed before: nothing is to be done. The stream has this result.
    Done { result: FinalizeResult },
    /// Other lanes are missing: store the change of status and keep the checkpoint. The stream has
    /// this result.
    Wait { change: StatusChange, result: FinalizeResult },
    /// The transfer is over: store the change of status. The stream has this result.
    Settle { change: StatusChange, result: FinalizeResult },
    /// Move the staging file to its destination.
    MoveIntoPlace,
}

/// How to go on with a staging file.
#[derive(Debug)]
pub enum DiskVerdict {
    /// Store the change of status; the stream has this result.
    Reject { change: StatusChange, result: FinalizeResult },
    /// Move the staging file to its destination, in place of the file there if there is one.
    Place { replace_existing: bool, bytes_transferred: u64 },
}

/// Whether a result has this status, byte count and message.
pub open spec fn is_result(
    result: FinalizeResult,
    status: TransferStatus,
    bytes: u64,
    message: Seq<char>,
) -> bool {
    &&& result.status == status
    &&& result.bytes_transferred == bytes
    &&& result.message@ == message
}

/// Whether the status of a transfer was changed to this, from one state of the registry to the
/// other.
pub open spec fn is_settling<L>(
    before: StateView<L>,
    after: StateView<L>,
    change: StatusChange,
    transfer_id: u128,
    status: TransferStatus,
    bytes: u64,
    now: Timestamp,
) -> bool {
    &&& after == before.with_status(transfer_id, status, bytes, now)
    &&& change.snapshot == after.transfer(transfer_id)
    &&& change.terminal == (before.transfers.contains_key(transfer_id) && state::is_terminal(
        status,
    ))
}

/// What is said of a stream that ended early.
pub open spec fn incomplete_words(bytes_received: u64, file_size_bytes: u64) -> Seq<char> {
    "incomplete stream: received "@ + text::decimal(bytes_received as nat) + " bytes, expected "@
        + text::decimal(file_size_bytes as nat)
}

fn incomplete_message(bytes_received: u64, file_size_bytes: u64) -> (r: String)
    ensures
        r@ == incomplete_words(bytes_received, file_size_bytes),
{
    with_two_numbers(
        "incomplete stream: received ",
        bytes_received,
        " bytes, expected ",
        file_size_bytes,
    )
}

/// Notes the bytes of a transfer that came in one stream. Where they are not the whole file the
/// transfer fails.
fn settle_single_lane<L>(
    state: &mut AppState<L>,
    transfer_id: u128,
    bytes_received: u64,
    now: Timestamp,
) -> (r: Result<Option<(StatusChange, FinalizeResult)>, UnknownTransfer>)
    requires
        old(state).wf(),
    ensures
        final(state).wf(),
        match r {
            Err(unknown) => {
                &&& !old(state)@.transfers.contains_key(transfer_id)
                &&& unknown.transfer_id == transfer_id
                &&& final(state)@ == old(state)@
            },
            Ok(None) => {
                &&& old(state)@.transfers.contains_key(transfer_id)
                &&& bytes_received == old(state)@.transfers[transfer_id].file_size_bytes
                &&& final(state)@ == old(state)@.with_progress(transfer_id, bytes_received, now)
            },
            Ok(Some((change, result))) => {
                &&& old(state)@.transfers.contains_key(transfer_id)
                &&& bytes_received != old(state)@.transfers[transfer_id].file_size_bytes
                &&& is_settling(
                    old(state)@,
                    final(state)@,
                    change,
                    transfer_id,
                    TransferStatus::Failed,
                    bytes_received,
                    now,
                )
                &&& is_result(
                    result,
                    TransferStatus::Failed,
                    state::capped_bytes(old(state)@.transfers[transfer_id], bytes_received),
                    incomplete_words(
                        bytes_received,
                        old(state)@.transfers[transfer_id].file_size_bytes,
                    ),
                )
            },
        },
{
    let file_size: u64 = match state.transfer(transfer_id) {
        Some(summary) => summary.file_size_bytes,
        None => {
            return Err(UnknownTransfer { transfer_id });
        },
    };
    state.record_progress(transfer_id, bytes_received, now);
    if bytes_received == file_size {
        return Ok(None);
    }
    let capped: u64 = if bytes_received < file_size {
        bytes_received
    } else {
        file_size
    };
    let change = state.set_transfer_status(transfer_id, TransferStatus::Failed, capped, now);
    proof {
        assert(state@.transfers =~= old(state)@.with_status(
            transfer_id,
            TransferStatus::Failed,
            bytes_received,
            now,
        ).transfers);
    }
    let result = FinalizeResult {
        status: TransferStatus::Failed,
        bytes_transferred: capped,
        message: incomplete_message(bytes_received, file_size),
    };
    Ok(Some((change, result)))
}

/// Ends a transfer that came in one stream and whose payload is in the staging file.
pub fn finalize_single_lane_transfer<L>(
    state: &mut AppState<L>,
    transfer_id: u128,
    bytes_received: u64,
    now: Timestamp,
) -> (r: Result<FinalizeStep, UnknownTransfer>)
    requires
        old(state).wf(),
    ensures
        final(state).wf(),
        match r {
            Err(unknown) => {
                &&& !old(state)@.transfers.contains_key(transfer_id)
                &&& unknown.transfer_id == transfer_id
                &&& final(state)@ == old(state)@
            },
            Ok(step) => {
                let file_size = old(state)@.transfers[transfer_id].file_size_bytes;
                &&& old(state)@.transfers.contains_key(transfer_id)
                &&& if bytes_received == file_size {
                    &&& step is MoveIntoPlace
                    &&& final(state)@ == old(state)@.with_progress(transfer_id, bytes_received, now)
                } else {
                    &&& step matches FinalizeStep::Settle { change, result } && {
                        &&& is_settling(
                            old(state)@,
                            final(state)@,
                            change,
                            transfer_id,
                            TransferStatus::Failed,
                            bytes_received,
                            now,
                        )
                        &&& is_result(
                            result,
                            TransferStatus::Failed,
                            state::capped_bytes(
                                old(state)@.transfers[transfer_id],
                                bytes_received,
                            ),
                            incomplete_words(bytes_received, file_size),
                        )
                    }
                }
            },
        },
{
    match settle_single_lane(state, transfer_id, bytes_received, now) {
        Err(unknown) => Err(unknown),
        Ok(Some((change, result))) => Ok(FinalizeStep::Settle { change, result }),
        Ok(None) => Ok(FinalizeStep::MoveIntoPlace),
    }
}

/// Ends a transfer that came in one stream and whose payload was dropped.
pub fn finalize_single_lane_transfer_memory<L>(
    state: &mut AppState<L>,
    transfer_id: u128,
    bytes_received: u64,
    now: Timestamp,
) -> (r: Result<(StatusChange, FinalizeResult), UnknownTransfer>)
    requires
        old(state).wf(),
    ensures
        final(state).wf(),
        match r {
            Err(unknown) => {
                &&& !old(state)@.transfers.contains_key(transfer_id)
                &&& unknown.transfer_id == transfer_id
                &&& final(state)@ == old(state)@
            },
            Ok((change, result)) => {
                let summary = old(state)@.transfers[transfer_id];
                let whole = bytes_received == summary.file_size_bytes;
                let status = if whole {
                    TransferStatus::Completed
                } else {
                    TransferStatus::Failed
                };
                &&& old(state)@.transfers.contains_key(transfer_id)
                &&& is_settling(
                    old(state)@,
                    final(state)@,
                    change,
                    transfer_id,
                    status,
                    bytes_received,
                    now,
                )
                &&& is_result(
                    result,
                    status,
                    state::capped_bytes(summary, bytes_received),
                    if whole {
                        "transfer finalized in null sink mode"@
                    } else {
                        incomplete_words(bytes_received, summary.file_size_bytes)
                    },
                )
            },
        },
{
    match settle_single_lane(state, transfer_id, bytes_received, now) {
        Err(unknown) => Err(unknown),
        Ok(Some((change, result))) => Ok((change, result)),
        Ok(None) => {
            let change = state.set_transfer_status(
                transfer_id,
                TransferStatus::Completed,
                bytes_received,
                now,
            );
            proof {
                assert(state@.transfers =~= old(state)@.with_status(
                    transfer_id,
                    TransferStatus::Completed,
                    bytes_received,
                    now,
                ).transfers);
            }
            let result = FinalizeResult {
                status: TransferStatus::Completed,
                bytes_transferred: bytes_received,
                message: "transfer finalized in null sink mode".to_owned(),
            };
            Ok((change, result))
        },
    }
}

/// The result of a lane stream of a transfer that another lane has completed already.
pub fn already_finalized<L>(state: &AppState<L>, transfer_id: u128) -> (r: Result<
    Option<FinalizeResult>,
    UnknownTransfer,
>)
    requires
        state.wf(),
    ensures
        match r {
            Err(unknown) => {
                &&& !state@.transfers.contains_key(transfer_id)
                &&& unknown.transfer_id == transfer_id
            },
            Ok(done) => {
                &&& state@.transfers.contains_key(transfer_id)
                &&& done is Some <==> state@.transfers[transfer_id].status
                    == TransferStatus::Completed
                &&& done matches Some(result) ==> is_result(
                    result,
                    TransferStatus::Completed,
                    state@.transfers[transfer_id].bytes_transferred,
                    "transfer already finalized"@,
                )
            },
        },
{
    match state.transfer(transfer_id) {
        None => Err(UnknownTransfer { transfer_id }),
        Some(summary) => match summary.status {
            TransferStatus::Completed => Ok(
                Some(
                    FinalizeResult {
                        status: TransferStatus::Completed,
                        bytes_transferred: summary.bytes_transferred,
                        message: "transfer already finalized".to_owned(),
                    },
                ),
            ),
            TransferStatus::Queued | TransferStatus::Running | TransferStatus::Failed => Ok(None),
        },
    }
}

/// Whether this is how a striped transfer is gone on with, from one state of the registry to the
/// other: an unknown transfer is an error, and a completed one is left as it is. Any other ends once
/// all of its lanes are complete, and waits for the others until then.
pub open spec fn is_finalizing<L>(
    before: StateView<L>,
    after: StateView<L>,
    transfer_id: u128,
    progress: TransferCheckpoint,
    discard_payload: bool,
    now: Timestamp,
    r: Result<FinalizeStep, UnknownTransfer>,
) -> bool {
    let total = checkpoint::total_progress(progress.lanes@) as u64;
    if !before.transfers.contains_key(transfer_id) {
        &&& r == Err::<FinalizeStep, UnknownTransfer>(UnknownTransfer { transfer_id })
        &&& after == before
    } else if before.transfers[transfer_id].status == TransferStatus::Completed {
        &&& r matches Ok(FinalizeStep::Done { result }) && is_result(
            result,
            TransferStatus::Completed,
            before.transfers[transfer_id].bytes_transferred,
            "transfer already finalized"@,
        )
        &&& after == before
    } else if !progress.is_complete() {
        r matches Ok(FinalizeStep::Wait { change, result }) && {
            &&& is_settling(
                before,
                after,
                change,
                transfer_id,
                TransferStatus::Running,
                total,
                now,
            )
            &&& is_result(
                result,
                TransferStatus::Running,
                total,
                "lane complete; waiting for remaining lanes"@,
            )
        }
    } else if discard_payload {
        r matches Ok(FinalizeStep::Settle { change, result }) && {
            &&& is_settling(
                before,
                after,
                change,
                transfer_id,
                TransferStatus::Completed,
                total,
                now,
            )
            &&& is_result(
                result,
                TransferStatus::Completed,
                total,
                "transfer finalized in null sink mode"@,
            )
        }
    } else {
        &&& r == Ok::<FinalizeStep, UnknownTransfer>(FinalizeStep::MoveIntoPlace)
        &&& after == before
    }
}

/// Ends a striped transfer if all of its lanes are complete; else it waits for the others. A transfer
/// that is completed already stays as it is, whatever the checkpoint says.
pub fn finalize_if_ready<L>(
    state: &mut AppState<L>,
    transfer_id: u128,
    progress: &TransferCheckpoint,
    discard_payload: bool,
    now: Timestamp,
) -> (r: Result<FinalizeStep, UnknownTransfer>)
    requires
        old(state).wf(),
        checkpoint::total_progress(progress.lanes@) <= u64::MAX,
    ensures
        final(state).wf(),
        is_finalizing(
            old(state)@,
            final(state)@,
            transfer_id,
            *progress,
            discard_payload,
            now,
            r,
        ),
{
    match already_finalized(state, transfer_id) {
        Err(unknown) => {
            return Err(unknown);
        },
        Ok(Some(result)) => {
            return Ok(FinalizeStep::Done { result });
        },
        Ok(None) => {},
    }
    let total: u64 = progress.total_transferred();
    if !progress.all_lanes_complete() {
        let change = state.set_transfer_status(transfer_id, TransferStatus::Running, total, now);
        return Ok(
            FinalizeStep::Wait {
                change,
                result: FinalizeResult {
                    status: TransferStatus::Running,
                    bytes_transferred: total,
                    message: "lane complete; waiting for remaining lanes".to_owned(),
                },
            },
        );
    }
    if discard_payload {
        let change = state.set_transfer_status(transfer_id, TransferStatus::Completed, total, now);
        Ok(
            FinalizeStep::Settle {
                change,
                result: FinalizeResult {
                    status: TransferStatus::Completed,
                    bytes_transferred: total,
                    message: "transfer finalized in null sink mode".to_owned(),
                },
            },
        )
    } else {
        Ok(FinalizeStep::MoveIntoPlace)
    }
}

/// A further finalization leaves a completed transfer as it is: nothing in the registry changes, and
/// the stream is told that the transfer is completed, with the bytes that it has.
pub proof fn finalizing_again_changes_nothing<L>(
    before: StateView<L>,
    after: StateView<L>,
    transfer_id: u128,
    progress: TransferCheckpoint,
    discard_payload: bool,
    now: Timestamp,
    r: Result<FinalizeStep, UnknownTransfer>,
)
    requires
        before.transfer(transfer_id) matches Some(summary) && summary.status
            == TransferStatus::Completed,
        is_finalizing(before, after, transfer_id, progress, discard_payload, now, r),
    ensures
        after == before,
        r matches Ok(FinalizeStep::Done { result }) && {
            &&& result.status == TransferStatus::Completed
            &&& result.bytes_transferred == before.transfers[transfer_id].bytes_transferred
        },
{
}

/// Once a transfer is settled as completed, by its last lane or by its file being put in place, every
/// other lane that ends afterwards finds it completed and changes nothing.
pub proof fn transfers_are_finalized_once<L>(
    before: StateView<L>,
    settled: StateView<L>,
    change: StatusChange,
    transfer_id: u128,
    bytes: u64,
    now: Timestamp,
    after: StateView<L>,
    progress: TransferCheckpoint,
    discard_payload: bool,
    later: Timestamp,
    r: Result<FinalizeStep, UnknownTransfer>,
)
    requires
        before.transfer(transfer_id) matches Some(summary) && summary.transfer_id == transfer_id,
        is_settling(
            before,
            settled,
            change,
            transfer_id,
            TransferStatus::Completed,
            bytes,
            now,
        ),
        is_finalizing(settled, after, transfer_id, progress, discard_payload, later, r),
    ensures
        after == settled,
        r matches Ok(FinalizeStep::Done { result }) && result.bytes_transferred
            == state::capped_bytes(before.transfers[transfer_id], bytes),
{
    finalizing_again_changes_nothing(
        settled,
        after,
        transfer_id,
        progress,
        discard_payload,
        later,
        r,
    );
}

/// A striped transfer is neither completed nor moved into place before every lane is complete.
pub proof fn completion_waits_for_every_lane<L>(
    before: StateView<L>,
    after: StateView<L>,
    transfer_id: u128,
    progress: TransferCheckpoint,
    discard_payload: bool,
    now: Timestamp,
    r: Result<FinalizeStep, UnknownTransfer>,
)
    requires
        before.transfer(transfer_id) matches Some(summary) && summary.transfer_id == transfer_id
            && summary.status != TransferStatus::Completed,
        is_finalizing(before, after, transfer_id, progress, discard_payload, now, r),
    ensures
        after.transfers[transfer_id].status == TransferStatus::Completed ==> progress.is_complete(),
        r matches Ok(FinalizeStep::MoveIntoPlace) ==> progress.is_complete(),
        !progress.is_complete() ==> after.is_running(transfer_id),
{
}

/// Why a file may not be put where another one is, in words.
pub open spec fn rejection_words(immutable_destination: bool, final_path: Seq<char>) -> Seq<char> {
    if immutable_destination {
        "immutable destination rejected existing file "@ + final_path
    } else {
        "destination exists and overwrite is disabled: "@ + final_path
    }
}

/// Decides whether the staging file may be moved to its destination.
pub fn finalize_transfer_on_disk<L>(
    state: &mut AppState<L>,
    transfer_id: u128,
    destination_exists: bool,
    final_path: &str,
    now: Timestamp,
) -> (r: Result<DiskVerdict, UnknownTransfer>)
    requires
        old(state).wf(),
    ensures
        final(state).wf(),
        match r {
            Err(unknown) => {
                &&& !old(state)@.transfers.contains_key(transfer_id)
                &&& unknown.transfer_id == transfer_id
                &&& final(state)@ == old(state)@
            },
            Ok(verdict) => {
                let summary = old(state)@.transfers[transfer_id];
                &&& old(state)@.transfers.contains_key(transfer_id)
                &&& if destination_exists && (summary.immutable_destination || !summary.overwrite) {
                    &&& verdict matches DiskVerdict::Reject { change, result } && {
                        &&& is_settling(
                            old(state)@,
                            final(state)@,
                            change,
                            transfer_id,
                            TransferStatus::Failed,
                            summary.bytes_transferred,
                            now,
                        )
                        &&& is_result(
                            result,
                            TransferStatus::Failed,
                            summary.bytes_transferred,
                            rejection_words(summary.immutable_destination, final_path@),
                        )
                    }
                } else {
                    &&& verdict == (DiskVerdict::Place {
                        replace_existing: destination_exists,
                        bytes_transferred: summary.bytes_transferred,
                    })
                    &&& final(state)@ == old(state)@
                }
            },
        },
{
    let summary = match state.transfer(transfer_id) {
        Some(summary) => summary,
        None => {
            return Err(UnknownTransfer { transfer_id });
        },
    };
    let bytes_transferred: u64 = summary.bytes_transferred;
    if destination_exists && (summary.immutable_destination || !summary.overwrite) {
        let mut message = if summary.immutable_destination {
            "immutable destination rejected existing file ".to_owned()
        } else {
            "destination exists and overwrite is disabled: ".to_owned()
        };
        message.append(final_path);
        let change = state.set_transfer_status(
            transfer_id,
            TransferStatus::Failed,
            bytes_transferred,
            now,
        );
        let result = FinalizeResult { status: TransferStatus::Failed, bytes_transferred, message };
        return Ok(DiskVerdict::Reject { change, result });
    }
    Ok(DiskVerdict::Place { replace_existing: destination_exists, bytes_transferred })
}

/// The staging file is at its destination: the transfer is complete.
pub fn file_placed<L>(
    state: &mut AppState<L>,
    transfer_id: u128,
    bytes_transferred: u64,
    final_path: &str,
    now: Timestamp,
) -> (r: (StatusChange, FinalizeResult))
    requires
        old(state).wf(),
    ensures
        final(state).wf(),
        is_settling(
            old(state)@,
            final(state)@,
            r.0,
            transfer_id,
            TransferStatus::Completed,
            bytes_transferred,
            now,
        ),
        is_result(
            r.1,
            TransferStatus::Completed,
            bytes_transferred,
            "transfer finalized at "@ + final_path@,
        ),
{
    let change = state.set_transfer_status(
        transfer_id,
        TransferStatus::Completed,
        bytes_transferred,
        now,
    );
    let mut message = "transfer finalized at ".to_owned();
    message.append(final_path);
    (change, FinalizeResult { status: TransferStatus::Completed, bytes_transferred, message })
}

/// Where the checkpoint covers the file, the striped transfer is ended only once every byte of the
/// file has been carried.
pub proof fn striped_transfers_end_whole(progress: TransferCheckpoint)
    requires
        checkpoint::covers_file(progress.lanes@, progress.file_size_bytes, progress.total_lanes),
    ensures
        checkpoint::total_progress(progress.lanes@) <= u64::MAX,
        progress.is_complete() ==> checkpoint::total_progress(progress.lanes@)
            == progress.file_size_bytes,
        !progress.is_complete() ==> checkpoint::total_progress(progress.lanes@)
            < progress.file_size_bytes,
{
    checkpoint::carried_bytes_fit_the_file(progress);
}

/// A transfer that was completed is found completed, with its bytes capped at its size, whatever
/// other transfers go through afterwards.
pub proof fn completed_transfers_stay_completed<L>(
    state: StateView<L>,
    transfer_id: u128,
    bytes: u64,
    now: Timestamp,
    other: u128,
    other_status: TransferStatus,
    other_bytes: u64,
    later: Timestamp,
)
    requires
        state.transfers.contains_key(transfer_id),
        other != transfer_id,
        forall|id: u128|
            #![trigger state.transfers[id]]
            state.transfers.contains_key(id) ==> state.transfers[id].transfer_id == id,
    ensures
        ({
            let done = state.with_status(transfer_id, TransferStatus::Completed, bytes, now);
            let after = done.with_status(other, other_status, other_bytes, later);
            let settled = after.transfers[transfer_id];
            &&& after.transfers.contains_key(transfer_id)
            &&& settled.status == TransferStatus::Completed
            &&& settled.bytes_transferred == state::capped_bytes(
                state.transfers[transfer_id],
                bytes,
            )
            &&& done.with_failure(transfer_id, later) == done
        }),
{
}

/// What settling a known transfer does: it has the status that was told, the bytes that were told or
/// the size of its file where that is less, and the time of the call. What is to be stored is the
/// transfer as it is then, and it is over exactly where it has completed or failed. Nothing else in
/// the registry changes.
pub proof fn settling_changes_one_transfer<L>(
    before: StateView<L>,
    after: StateView<L>,
    change: StatusChange,
    transfer_id: u128,
    status: TransferStatus,
    bytes: u64,
    now: Timestamp,
)
    requires
        before.transfer(transfer_id) matches Some(summary) && summary.transfer_id == transfer_id,
        is_settling(before, after, change, transfer_id, status, bytes, now),
    ensures
        ({
            let summary = before.transfers[transfer_id];
            let settled = TransferSummary {
                status,
                bytes_transferred: vstd::math::min(
                    bytes as int,
                    summary.file_size_bytes as int,
                ) as u64,
                updated_at: now,
                ..summary
            };
            &&& after == (StateView {
                transfers: before.transfers.insert(transfer_id, settled),
                ..before
            })
            &&& change.snapshot == Some(settled)
            &&& change.terminal <==> status == TransferStatus::Completed || status
                == TransferStatus::Failed
        }),
{
    state::changes_say_what_was_told(before, transfer_id, status, bytes, now);
}

/// How a striped transfer that is not completed is gone on with. While a lane is missing it runs on,
/// with the bytes that all lanes have carried. Once none is, a payload that was dropped completes it,
/// with those bytes; a payload that was kept does not: its staging file is to be put in place first,
/// and nothing changes until then. The stream is told the status and the bytes.
pub proof fn kept_payloads_are_placed_before_completion<L>(
    before: StateView<L>,
    after: StateView<L>,
    transfer_id: u128,
    progress: TransferCheckpoint,
    discard_payload: bool,
    now: Timestamp,
    r: Result<FinalizeStep, UnknownTransfer>,
)
    requires
        before.transfer(transfer_id) matches Some(summary) && summary.transfer_id == transfer_id
            && summary.status != TransferStatus::Completed,
        checkpoint::total_progress(progress.lanes@) <= u64::MAX,
        is_finalizing(before, after, transfer_id, progress, discard_payload, now, r),
    ensures
        ({
            let summary = before.transfers[transfer_id];
            let total = checkpoint::total_progress(progress.lanes@);
            let bytes = vstd::math::min(total as int, summary.file_size_bytes as int);
            let missing = exists|i: int|
                0 <= i < progress.lanes@.len() && (#[trigger] progress.lanes@[i]).offset
                    < progress.lanes@[i].range_end_exclusive;
            &&& missing ==> {
                &&& r matches Ok(FinalizeStep::Wait { change, result })
                    && result.status == TransferStatus::Running && result.bytes_transferred == total
                    && !change.terminal
                &&& after.transfers[transfer_id] == (TransferSummary {
                    status: TransferStatus::Running,
                    bytes_transferred: bytes as u64,
                    updated_at: now,
                    ..summary
                })
            }
            &&& !missing && discard_payload ==> {
                &&& r matches Ok(FinalizeStep::Settle { change, result })
                    && result.status == TransferStatus::Completed && result.bytes_transferred
                    == total && change.terminal
                &&& after.transfers[transfer_id] == (TransferSummary {
                    status: TransferStatus::Completed,
                    bytes_transferred: bytes as u64,
                    updated_at: now,
                    ..summary
                })
            }
            &&& !missing && !discard_payload ==> r == Ok::<FinalizeStep, UnknownTransfer>(
                FinalizeStep::MoveIntoPlace,
            ) && after == before
            &&& !discard_payload ==> after.transfers[transfer_id].status
                != TransferStatus::Completed
        }),
{
}

/// A result says exactly the status, the bytes and the message that it is given.
pub proof fn results_say_what_they_are_given(
    result: FinalizeResult,
    status: TransferStatus,
    bytes: u64,
    message: Seq<char>,
)
    requires
        is_result(result, status, bytes, message),
    ensures
        result.status == status,
        result.bytes_transferred == bytes,
        result.message@ == message,
{
}

/// A transfer that the registry does not know is not finalized: the stream is told so, and nothing
/// changes.
pub proof fn unknown_transfers_are_not_finalized<L>(
    before: StateView<L>,
    after: StateView<L>,
    transfer_id: u128,
    progress: TransferCheckpoint,
    discard_payload: bool,
    now: Timestamp,
    r: Result<FinalizeStep, UnknownTransfer>,
)
    requires
        !before.transfers.contains_key(transfer_id),
        is_finalizing(before, after, transfer_id, progress, discard_payload, now, r),
    ensures
        r == Err::<FinalizeStep, UnknownTransfer>(UnknownTransfer { transfer_id }),
        after == before,
{
}

} // verus!
