use metra::checkpoint::new_checkpoint;
use metra::finalize::{
    already_finalized, file_placed, finalize_if_ready, finalize_single_lane_transfer,
    finalize_single_lane_transfer_memory, finalize_transfer_on_disk, DiskVerdict, FinalizeStep,
};
use metra::messages::{
    QuicTransferOpen, Timestamp, TransferStatus, TransferSummary, RESUME_CHUNK_SIZE_BYTES,
};
use metra::metrics::{Instrument, Reading};
use metra::session::{FinalizeResult, StartFault, StreamAction, StreamPhase, StreamSession};
use metra::state::AppState;
use metra::upload::{
    admit_stream, checkpoint_file_name, checkpoint_temp_name, is_null_sink_uri, staging_file_name, OpenFault,
};
use uuid::Uuid;

const AT: Timestamp = Timestamp { secs: 100, nanos: 0 };
const LATER: Timestamp = Timestamp { secs: 200, nanos: 0 };
const ID: u128 = 0x42;

fn transfer(destination_uri: &str) -> TransferSummary {
    TransferSummary {
        transfer_id: ID,
        tenant_id: "tenant".to_owned(),
        user_id: "user".to_owned(),
        source_uri: "file:///a".to_owned(),
        destination_uri: destination_uri.to_owned(),
        file_name: "f.bin".to_owned(),
        file_size_bytes: 1_000,
        overwrite: false,
        immutable_destination: false,
        status: TransferStatus::Queued,
        resume_chunk_size_bytes: RESUME_CHUNK_SIZE_BYTES,
        bytes_transferred: 0,
        created_at: AT,
        updated_at: AT,
    }
}

fn state_with(summary: TransferSummary) -> AppState<()> {
    AppState::new(
        String::new(),
        String::new(),
        String::new(),
        String::new(),
        vec![summary],
    )
}

fn open_frame() -> QuicTransferOpen {
    QuicTransferOpen {
        transfer_id: ID,
        file_size_bytes: 1_000,
        file_name: "f.bin".to_owned(),
        resume_chunk_size_bytes: RESUME_CHUNK_SIZE_BYTES,
        lane_index: 0,
        total_lanes: 1,
        range_start: 0,
        range_end_exclusive: 0,
        payload_codec: "raw-v1".to_owned(),
        receive_write_pipeline_depth: 100,
    }
}

#[test]
fn null_sinks_are_recognised() {
    assert!(is_null_sink_uri("null://x"));
    assert!(is_null_sink_uri("memory://"));
    assert!(is_null_sink_uri("mem://y"));
    assert!(!is_null_sink_uri("file:///null://"));
    assert!(!is_null_sink_uri("null:/"));
}

#[test]
fn file_names_of_a_transfer() {
    let id = Uuid::new_v4();
    assert_eq!(staging_file_name(id.as_u128()), format!("{id}.part"));
    assert_eq!(
        checkpoint_file_name(id.as_u128()),
        format!("{id}.part.meta.json")
    );
    assert_eq!(
        checkpoint_temp_name("c.json", id.as_u128()),
        format!(".c.json.tmp-{id}")
    );
}

#[test]
fn an_admitted_stream_has_a_plan_and_a_lease() {
    let mut state = state_with(transfer("file:///b"));
    let mut open = open_frame();
    open.total_lanes = 0;
    let plan = admit_stream(&mut state, &open).expect("admitted");
    assert_eq!(plan.total_lanes, 1);
    assert_eq!((plan.range_start, plan.range_end_exclusive), (0, 1_000));
    assert!(!plan.striped);
    assert!(!plan.discard_payload);
    assert_eq!(plan.receive_write_pipeline_depth, 32);
    assert_eq!(plan.final_name, "f.bin");
    let busy = admit_stream(&mut state, &open).expect_err("the lane is taken");
    assert_eq!(
        busy.message(),
        format!(
            "lane 0 for transfer {} already has an active writer",
            Uuid::from_u128(ID)
        )
    );
    state.release_lane_writer(ID, 0);
    assert!(admit_stream(&mut state, &open).is_ok());
}

#[test]
fn a_partial_range_is_striped() {
    let mut state = state_with(transfer("null://b"));
    let mut open = open_frame();
    open.range_end_exclusive = 999;
    let plan = admit_stream(&mut state, &open).expect("admitted");
    assert!(plan.striped);
    assert!(plan.discard_payload);
}

#[test]
fn streams_are_refused_in_order_and_in_words() {
    let mut state = state_with(transfer("file:///b"));
    let refused = |state: &mut AppState<()>, change: &dyn Fn(&mut QuicTransferOpen)| {
        let mut open = open_frame();
        change(&mut open);
        admit_stream(state, &open).expect_err("refused").message()
    };
    assert_eq!(
        refused(&mut state, &|open| {
            open.total_lanes = 65;
            open.lane_index = 70;
        }),
        "total_lanes 65 exceeds max 64"
    );
    assert_eq!(
        refused(&mut state, &|open| {
            open.lane_index = 1;
            open.range_start = 2_000;
        }),
        "invalid lane index 1 of 1"
    );
    assert_eq!(
        refused(&mut state, &|open| {
            open.range_start = 1_000;
            open.payload_codec = "zip".to_owned();
        }),
        "invalid range 1000..1000 for file size 1000"
    );
    assert_eq!(
        refused(&mut state, &|open| open.range_end_exclusive = 1_001),
        "invalid range 0..1001 for file size 1000"
    );
    assert_eq!(
        refused(&mut state, &|open| open.payload_codec = "zip".to_owned()),
        format!(
            "unsupported payload codec 'zip' for transfer {} lane 0",
            Uuid::from_u128(ID)
        )
    );
    assert_eq!(
        refused(&mut state, &|open| open.transfer_id = 9),
        format!("unknown transfer_id {}", Uuid::from_u128(9))
    );
    assert_eq!(
        refused(&mut state, &|open| open.file_size_bytes = 999),
        "file_size mismatch: open=999 transfer=1000"
    );
    assert_eq!(
        refused(&mut state, &|open| open.resume_chunk_size_bytes = 1),
        "resume_chunk_size mismatch: open=1 transfer=1048576"
    );

    let mut bad_tenant = transfer("file:///b");
    bad_tenant.tenant_id = "a/b".to_owned();
    bad_tenant.user_id = "c/d".to_owned();
    let mut state = state_with(bad_tenant);
    assert_eq!(refused(&mut state, &|_| {}), "transfer has invalid tenant_id 'a/b'");
    let mut bad_user = transfer("file:///b");
    bad_user.user_id = "c/d".to_owned();
    let mut state = state_with(bad_user);
    assert_eq!(refused(&mut state, &|_| {}), "transfer has invalid user_id 'c/d'");
    assert!(matches!(
        admit_stream(&mut state, &open_frame()),
        Err(OpenFault::InvalidUser { .. })
    ));
}

#[test]
fn a_single_stream_goes_to_disk() {
    let mut state = state_with(transfer("file:///b"));
    let mut session = StreamSession::open(&mut state, &open_frame()).expect("admitted");
    assert_eq!(session.phase(), StreamPhase::PreparingDirectory);
    assert!(matches!(
        session.directory_ready(&mut state, AT),
        Ok(StreamAction::MeasureStaging)
    ));
    let Ok(StreamAction::StoreStart(stored)) =
        session.staging_measured(&mut state, Some(400), LATER)
    else {
        panic!("the start is stored")
    };
    assert_eq!(stored.status, TransferStatus::Running);
    assert_eq!(stored.bytes_transferred, 400);
    assert_eq!(stored.updated_at, LATER);
    let StreamAction::SendOpenAck(ack) = session.start_stored(&mut state, 1_000) else {
        panic!("the stream is acknowledged")
    };
    assert!(ack.ok);
    assert_eq!(ack.resume_offset_bytes, 400);
    assert_eq!(ack.message, "transfer stream accepted");
    assert_eq!(ack.payload_codec, "raw-v1");
    assert_eq!(ack.receive_write_pipeline_depth, 32);
    let (action, started) = session.open_ack_sent(2_000);
    assert!(matches!(
        action,
        StreamAction::ReceivePayload { resume_offset: 400, expected_bytes: 600 }
    ));
    assert_eq!(started.len(), 2);
    assert_eq!(started[0].instrument, Instrument::LaneStreamsStarted);
    assert_eq!(started[1].reading, Reading::Change(1));
    assert!(matches!(
        session.payload_received(600),
        StreamAction::FinalizeOnDisk { bytes_received: 1_000 }
    ));

    let step = finalize_single_lane_transfer(&mut state, ID, 1_000, AT).expect("known");
    assert!(matches!(step, FinalizeStep::MoveIntoPlace));
    let verdict =
        finalize_transfer_on_disk(&mut state, ID, false, "/data/f.bin", AT).expect("known");
    let DiskVerdict::Place { replace_existing: false, bytes_transferred: 1_000 } = verdict else {
        panic!("the file is placed")
    };
    let (change, result) = file_placed(&mut state, ID, 1_000, "/data/f.bin", AT);
    assert!(change.terminal);
    assert_eq!(result.message, "transfer finalized at /data/f.bin");
    let (ack, counted) = session.finalized(&mut state, result, LATER, 5_000);
    assert!(ack.ok);
    assert_eq!(ack.status, TransferStatus::Completed);
    assert_eq!(ack.bytes_received, 1_000);
    assert_eq!(ack.updated_at, LATER);
    assert_eq!(counted.len(), 8);
    assert_eq!(counted[3].reading, Reading::Elapsed { nanos: 3_000 });
    assert_eq!(counted[4].reading, Reading::Rate { bytes: 600, nanos: 3_000 });
    assert_eq!(counted[5].instrument, Instrument::TransferFinished);
    assert_eq!(counted[6].reading, Reading::Elapsed { nanos: 4_000 });
    assert_eq!(counted[7].reading, Reading::Rate { bytes: 1_000, nanos: 4_000 });
    session.completion_sent();
    assert_eq!(session.phase(), StreamPhase::Done);
    assert!(session.close(&mut state, 6_000).is_empty());
    assert!(state.try_acquire_lane_writer(ID, 0));
    assert_eq!(state.transfer(ID).expect("known").status, TransferStatus::Completed);
}

#[test]
fn a_dropped_payload_resumes_from_the_registry() {
    let mut known = transfer("null://b");
    known.bytes_transferred = 5_000;
    let mut state = state_with(known);
    let mut session = StreamSession::open(&mut state, &open_frame()).expect("admitted");
    let Ok(StreamAction::StoreStart(stored)) = session.directory_ready(&mut state, AT) else {
        panic!("the start is stored")
    };
    assert_eq!(stored.bytes_transferred, 1_000);
    assert_eq!(session.resume_offset(), 1_000);
    session.start_stored(&mut state, 0);
    let (action, _) = session.open_ack_sent(0);
    assert!(matches!(
        action,
        StreamAction::ReceivePayload { resume_offset: 1_000, expected_bytes: 0 }
    ));
    assert!(matches!(
        session.payload_received(0),
        StreamAction::FinalizeInMemory { bytes_received: 1_000 }
    ));
    let (change, result) =
        finalize_single_lane_transfer_memory(&mut state, ID, 1_000, AT).expect("known");
    assert!(change.terminal);
    assert_eq!(result.status, TransferStatus::Completed);
    assert_eq!(result.message, "transfer finalized in null sink mode");
}

#[test]
fn striped_streams_size_the_file_and_wait_for_each_other() {
    let mut state = state_with(transfer("file:///b"));
    let mut open = open_frame();
    open.total_lanes = 2;
    open.range_end_exclusive = 500;
    let mut session = StreamSession::open(&mut state, &open).expect("admitted");
    assert!(matches!(
        session.directory_ready(&mut state, AT),
        Ok(StreamAction::ResumeLane)
    ));
    let mut checkpoint = new_checkpoint(ID, 1_000, 2);
    let (resume, total) = checkpoint.resume_lane(1_000, 2, 0, 500, 0).expect("fits");
    assert!(matches!(
        session.lane_resumed(&mut state, resume, total, AT),
        Ok(StreamAction::StoreStart(_))
    ));
    assert!(matches!(
        session.start_stored(&mut state, 0),
        StreamAction::SizeStaging { file_size_bytes: 1_000 }
    ));
    assert!(matches!(session.staging_sized(), StreamAction::SendOpenAck(_)));
    session.open_ack_sent(0);
    assert!(matches!(session.payload_received(500), StreamAction::FinalizeStriped));
    checkpoint.advance_lane(0, 500).expect("known lane");
    assert!(already_finalized(&state, ID).expect("known").is_none());
    let Ok(FinalizeStep::Wait { change, result }) =
        finalize_if_ready(&mut state, ID, &checkpoint, false, AT)
    else {
        panic!("the other lane is missing")
    };
    assert!(!change.terminal);
    assert_eq!(result.status, TransferStatus::Running);
    assert_eq!(result.bytes_transferred, 500);
    assert_eq!(result.message, "lane complete; waiting for remaining lanes");
    let (ack, counted) = session.finalized(&mut state, result, AT, 0);
    assert!(!ack.ok);
    assert_eq!(counted.len(), 4);

    checkpoint.advance_lane(1, 1_000).expect("known lane");
    assert!(matches!(
        finalize_if_ready(&mut state, ID, &checkpoint, false, AT),
        Ok(FinalizeStep::MoveIntoPlace)
    ));
    let Ok(FinalizeStep::Settle { change, result }) =
        finalize_if_ready(&mut state, ID, &checkpoint, true, AT)
    else {
        panic!("a dropped payload is done")
    };
    assert!(change.terminal);
    assert_eq!(result.status, TransferStatus::Completed);
    assert_eq!(result.bytes_transferred, 1_000);
    let done = already_finalized(&state, ID).expect("known").expect("done");
    assert_eq!(done.message, "transfer already finalized");
    assert_eq!(done.bytes_transferred, 1_000);
}

#[test]
fn a_completed_transfer_is_finalized_once() {
    let mut done = transfer("file:///b");
    done.status = TransferStatus::Completed;
    done.bytes_transferred = 1_000;
    let mut state = state_with(done);
    let open_lanes = new_checkpoint(ID, 1_000, 2);
    assert!(!open_lanes.all_lanes_complete());
    for discard_payload in [false, true] {
        let Ok(FinalizeStep::Done { result }) =
            finalize_if_ready(&mut state, ID, &open_lanes, discard_payload, LATER)
        else {
            panic!("the transfer is completed already")
        };
        assert_eq!(result.status, TransferStatus::Completed);
        assert_eq!(result.bytes_transferred, 1_000);
        assert_eq!(result.message, "transfer already finalized");
        let kept = state.transfer(ID).expect("known");
        assert_eq!(kept.status, TransferStatus::Completed);
        assert_eq!(kept.bytes_transferred, 1_000);
        assert_eq!(kept.updated_at, AT);
    }
}

#[test]
fn unknown_transfers_are_not_finalized() {
    let mut state = state_with(transfer("file:///b"));
    let checkpoint = new_checkpoint(9, 1_000, 2);
    let unknown =
        finalize_if_ready(&mut state, 9, &checkpoint, true, LATER).expect_err("unknown transfer");
    assert_eq!(unknown.transfer_id, 9);
    assert_eq!(
        unknown.message(),
        format!("unknown transfer_id {}", Uuid::from_u128(9))
    );
    assert_eq!(state.transfer(ID).expect("known").updated_at, AT);
    assert!(state.transfer(9).is_none());
}

#[test]
fn a_settled_transfer_stays_as_its_last_lane_left_it() {
    let mut state = state_with(transfer("null://b"));
    let mut checkpoint = new_checkpoint(ID, 1_000, 2);
    checkpoint.advance_lane(0, 500).expect("known lane");
    checkpoint.advance_lane(1, 1_000).expect("known lane");
    assert!(matches!(
        finalize_if_ready(&mut state, ID, &checkpoint, true, AT),
        Ok(FinalizeStep::Settle { .. })
    ));
    assert!(matches!(
        finalize_if_ready(&mut state, ID, &new_checkpoint(ID, 1_000, 2), true, LATER),
        Ok(FinalizeStep::Done { .. })
    ));
    let kept = state.transfer(ID).expect("known");
    assert_eq!(kept.status, TransferStatus::Completed);
    assert_eq!(kept.updated_at, AT);
}

#[test]
fn striped_and_dropped_streams_record_their_progress() {
    let mut state = state_with(transfer("mem://b"));
    let mut open = open_frame();
    open.total_lanes = 2;
    open.lane_index = 1;
    open.range_start = 500;
    let mut session = StreamSession::open(&mut state, &open).expect("admitted");
    session.directory_ready(&mut state, AT).expect("resume");
    session.lane_resumed(&mut state, 500, 9_999, AT).expect("begun");
    assert_eq!(state.transfer(ID).expect("known").bytes_transferred, 1_000);
    assert!(matches!(
        session.start_stored(&mut state, 0),
        StreamAction::SendOpenAck(_)
    ));
    session.open_ack_sent(0);
    assert!(matches!(
        session.payload_received(500),
        StreamAction::RecordProgress { offset: 1_000 }
    ));
    assert!(matches!(session.progress_recorded(), StreamAction::FinalizeStriped));
}

#[test]
fn streams_that_cannot_start_say_why() {
    let mut state = state_with(transfer("file:///b"));
    let mut session = StreamSession::open(&mut state, &open_frame()).expect("admitted");
    session.directory_ready(&mut state, AT).expect("measure");
    let fault = session
        .staging_measured(&mut state, Some(1_001), AT)
        .expect_err("too large");
    assert_eq!(fault.message(), "staging file larger than expected size: 1001 > 1000");
    assert_eq!(session.phase(), StreamPhase::Aborted);
    let (change, measured) = session.broken(&mut state, AT, 0);
    assert!(change.is_none());
    assert!(measured.is_empty());
    assert_eq!(state.transfer(ID).expect("known").status, TransferStatus::Queued);
    session.close(&mut state, 0);

    assert_eq!(
        StartFault::UnknownTransfer { transfer_id: ID }.message(),
        format!("unknown transfer_id {}", Uuid::from_u128(ID))
    );
    assert_eq!(
        StartFault::MetadataChanged.message(),
        "transfer metadata changed while opening stream"
    );
}

#[test]
fn a_broken_stream_fails_its_transfer_once_it_has_started() {
    let mut state = state_with(transfer("file:///b"));
    let mut session = StreamSession::open(&mut state, &open_frame()).expect("admitted");
    session.directory_ready(&mut state, AT).expect("measure");
    session.staging_measured(&mut state, None, AT).expect("begun");
    let (change, _) = session.broken(&mut state, AT, 0);
    assert!(change.is_none());
    assert_eq!(state.transfer(ID).expect("known").status, TransferStatus::Running);
    session.close(&mut state, 0);

    let mut session = StreamSession::open(&mut state, &open_frame()).expect("admitted again");
    session.directory_ready(&mut state, AT).expect("measure");
    session.staging_measured(&mut state, None, AT).expect("begun");
    session.start_stored(&mut state, 0);
    session.open_ack_sent(10);
    let (change, measured) = session.broken(&mut state, LATER, 30);
    let change = change.expect("the transfer fails");
    assert!(change.terminal);
    assert_eq!(change.snapshot.expect("snapshot").status, TransferStatus::Failed);
    assert_eq!(measured.len(), 5);
    assert_eq!(measured[0].attributes.status, Some(TransferStatus::Failed));
    assert!(session.close(&mut state, 40).is_empty());
}

#[test]
fn a_stream_that_is_dropped_is_counted_as_failed() {
    let mut state = state_with(transfer("file:///b"));
    let mut session = StreamSession::open(&mut state, &open_frame()).expect("admitted");
    session.directory_ready(&mut state, AT).expect("measure");
    session.staging_measured(&mut state, None, AT).expect("begun");
    session.start_stored(&mut state, 0);
    session.open_ack_sent(10);
    let measured = session.close(&mut state, 10);
    assert_eq!(measured.len(), 4);
    assert_eq!(measured[1].reading, Reading::Change(-1));
    assert!(state.try_acquire_lane_writer(ID, 0));
}

#[test]
fn incomplete_streams_fail() {
    let mut state = state_with(transfer("file:///b"));
    let FinalizeStep::Settle { change, result } =
        finalize_single_lane_transfer(&mut state, ID, 400, AT).expect("known")
    else {
        panic!("the stream is incomplete")
    };
    assert!(change.terminal);
    assert_eq!(result.status, TransferStatus::Failed);
    assert_eq!(result.bytes_transferred, 400);
    assert_eq!(result.message, "incomplete stream: received 400 bytes, expected 1000");
    let (_, result) =
        finalize_single_lane_transfer_memory(&mut state, ID, 1_200, AT).expect("known");
    assert_eq!(result.bytes_transferred, 1_000);
    assert_eq!(result.message, "incomplete stream: received 1200 bytes, expected 1000");
    let unknown = finalize_single_lane_transfer(&mut state, 9, 1, AT).expect_err("unknown");
    assert_eq!(
        unknown.message(),
        format!("unknown transfer_id {}", Uuid::from_u128(9))
    );
    assert!(already_finalized(&state, 9).is_err());
}

#[test]
fn existing_files_are_replaced_only_where_that_is_allowed() {
    let verdict = |overwrite: bool, immutable: bool, exists: bool| {
        let mut summary = transfer("file:///b");
        summary.overwrite = overwrite;
        summary.immutable_destination = immutable;
        summary.bytes_transferred = 1_000;
        let mut state = state_with(summary);
        finalize_transfer_on_disk(&mut state, ID, exists, "/d/f", AT).expect("known")
    };
    let rejected = |verdict: DiskVerdict| -> FinalizeResult {
        match verdict {
            DiskVerdict::Reject { change, result } => {
                assert!(change.terminal);
                result
            }
            DiskVerdict::Place { .. } => panic!("rejected"),
        }
    };
    assert!(matches!(
        verdict(true, false, true),
        DiskVerdict::Place { replace_existing: true, bytes_transferred: 1_000 }
    ));
    assert!(matches!(
        verdict(false, true, false),
        DiskVerdict::Place { replace_existing: false, .. }
    ));
    assert_eq!(
        rejected(verdict(true, true, true)).message,
        "immutable destination rejected existing file /d/f"
    );
    assert_eq!(
        rejected(verdict(false, false, true)).message,
        "destination exists and overwrite is disabled: /d/f"
    );
}
