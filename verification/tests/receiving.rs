use metra::codec::{encode_payload_frame, AeadLaneCodec, PayloadCodec};
use metra::messages::{Timestamp, TransferStatus, TransferSummary, RESUME_CHUNK_SIZE_BYTES};
use metra::metrics::{
    elapsed_nanos, record_lane_stream_finished, record_lane_stream_started,
    record_transfer_finished, status_label, Instrument, LaneStreamMetricGuard, Reading,
};
use metra::receive::{
    lane_outcome, persist_progress, FrameDecoder, LaneFailure, LaneReceiver, ProgressStep,
    ReceiveFault, WriterProgress,
};
use metra::state::AppState;
use uuid::Uuid;

const ID: u128 = 77;
const MIB: u64 = RESUME_CHUNK_SIZE_BYTES;

fn nonce(n: u8) -> [u8; 12] {
    [n; 12]
}

#[test]
fn a_lane_is_received_frame_by_frame() {
    for codec in [PayloadCodec::RawV1, PayloadCodec::AeadV1] {
        let lane = AeadLaneCodec::new(ID, 2);
        let chunks: [&[u8]; 3] = [b"first ", b"second ", b"third"];
        let mut wire = Vec::new();
        for (n, chunk) in chunks.iter().enumerate() {
            wire.extend(
                encode_payload_frame(codec, chunk, nonce(n as u8), Some(&lane)).expect("frame"),
            );
        }
        let payload = chunks.concat();

        let decoder = FrameDecoder::new(ID, 2, codec);
        let mut receiver = LaneReceiver::new(ID, 2, payload.len() as u64);
        let mut received = Vec::new();
        let mut at = 0;
        while receiver.wants_frame() {
            let mut header = [0u8; 16];
            header.copy_from_slice(&wire[at..at + 16]);
            let frame = decoder.read_header(header).expect("header");
            let body = &wire[at + 16..at + 16 + frame.wire_len];
            receiver.admit_frame(frame.plaintext_len).expect("fits");
            received.extend(
                decoder
                    .decode(frame.plaintext_len, frame.nonce, body)
                    .expect("plaintext"),
            );
            at += 16 + frame.wire_len;
        }
        assert_eq!(at, wire.len());
        assert_eq!(received, payload);
        assert_eq!(receiver.finish().expect("whole"), payload.len() as u64);
    }
}

#[test]
fn bad_frames_are_refused_in_words() {
    let words = format!("transfer {} lane 2", Uuid::from_u128(ID));
    let decoder = FrameDecoder::new(ID, 2, PayloadCodec::AeadV1);
    let fault = decoder.read_header([0u8; 16]).expect_err("empty frame");
    assert_eq!(fault.message(), format!("invalid payload frame header for {words}"));
    assert!(matches!(
        &fault,
        ReceiveFault::InvalidHeader { reason, .. }
            if reason == "payload frame plaintext length must be > 0"
    ));
    let fault = decoder.decode(3, nonce(0), &[0u8; 19]).expect_err("not sealed");
    assert_eq!(fault.message(), format!("failed decoding payload frame for {words}"));
    assert!(matches!(
        &fault,
        ReceiveFault::Undecodable { reason, .. } if reason == "app-level AEAD decryption failed"
    ));

    let mut receiver = LaneReceiver::new(ID, 2, 10);
    receiver.admit_frame(6).expect("fits");
    let fault = receiver.admit_frame(5).expect_err("too much");
    assert_eq!(fault.message(), format!("received lane payload overflow for {words}"));
    assert_eq!(receiver.bytes_received, 6);
    let fault = receiver.finish().expect_err("too little");
    assert_eq!(
        fault.message(),
        format!("incomplete lane stream for {words}: got 6 expected 10")
    );
    receiver.admit_frame(4).expect("fits exactly");
    assert!(!receiver.wants_frame());
}

#[test]
fn the_stages_of_a_lane_have_one_outcome() {
    let mut receiver = LaneReceiver::new(ID, 3, 10);
    receiver.admit_frame(10).expect("fits");
    let stage = |result: Result<u64, LaneFailure<&'static str>>| match result {
        Err(LaneFailure::Stage(name)) => name,
        other => panic!("{other:?}"),
    };
    assert_eq!(
        stage(lane_outcome(&receiver, Err("decode"), Err("write"), Err("read"))),
        "decode"
    );
    assert_eq!(stage(lane_outcome(&receiver, Ok(()), Err("write"), Err("read"))), "write");
    assert_eq!(stage(lane_outcome(&receiver, Ok(()), Ok(10), Err("read"))), "read");
    assert_eq!(lane_outcome(&receiver, Ok::<(), ()>(()), Ok(10), Ok(())).ok(), Some(10));
    match lane_outcome(&receiver, Ok::<(), ()>(()), Ok(9), Ok(())) {
        Err(LaneFailure::Fault(fault)) => {
            assert_eq!(fault.message(), "lane 3 writer mismatch: written 9 != received 10")
        }
        other => panic!("{other:?}"),
    }
    let short = LaneReceiver::new(ID, 3, 10);
    assert!(matches!(
        lane_outcome(&short, Ok::<(), ()>(()), Ok(0), Ok(())),
        Err(LaneFailure::Fault(ReceiveFault::Incomplete { got: 0, expected: 10, .. }))
    ));
}

#[test]
fn progress_is_recorded_once_per_interval_and_at_the_end() {
    let mut progress = WriterProgress::new(100);
    assert_eq!(progress.lane_ended(), None);
    assert_eq!(progress.chunk_written(MIB - 1), None);
    assert_eq!(progress.chunk_written(1), Some(100 + MIB));
    assert_eq!(progress.lane_ended(), None);
    assert_eq!(progress.chunk_written(3 * MIB), Some(100 + 4 * MIB));
    assert_eq!(progress.chunk_written(7), None);
    assert_eq!(progress.lane_ended(), Some(100 + 4 * MIB + 7));
    assert_eq!(progress.bytes_written, 4 * MIB + 7);
}

#[test]
fn status_labels() {
    assert_eq!(status_label(TransferStatus::Queued), "queued");
    assert_eq!(status_label(TransferStatus::Running), "running");
    assert_eq!(status_label(TransferStatus::Completed), "completed");
    assert_eq!(status_label(TransferStatus::Failed), "failed");
    assert_eq!(
        Instrument::LaneStreamsStarted.name(),
        "metra.quic.lane.streams.started.total"
    );
    assert_eq!(
        Instrument::TransferThroughput.name(),
        "metra.quic.transfer.throughput.gbps"
    );
}

#[test]
fn lane_streams_are_counted() {
    let started = record_lane_stream_started(1, 4, true, false);
    assert_eq!(started.len(), 2);
    assert_eq!(started[0].instrument, Instrument::LaneStreamsStarted);
    assert_eq!(started[0].reading, Reading::Count(1));
    assert_eq!(started[0].attributes.lane_index, Some(1));
    assert_eq!(started[0].attributes.total_lanes, 4);
    assert!(started[0].attributes.striped);
    assert!(!started[0].attributes.no_disk);
    assert_eq!(started[0].attributes.status, None);
    assert_eq!(started[1].instrument, Instrument::LaneStreamsActive);
    assert_eq!(started[1].attributes.lane_index, None);

    let finished =
        record_lane_stream_finished(1, 4, true, false, TransferStatus::Running, 50, 0);
    assert_eq!(finished.len(), 4);
    assert_eq!(finished[2].instrument, Instrument::LaneBytesReceived);
    assert_eq!(finished[2].reading, Reading::Count(50));
    assert_eq!(finished[3].instrument, Instrument::LaneDuration);

    let transfer = record_transfer_finished(4, true, true, TransferStatus::Completed, 9, 3);
    assert_eq!(transfer.len(), 3);
    assert_eq!(transfer[2].instrument, Instrument::TransferThroughput);
    assert_eq!(transfer[2].reading, Reading::Rate { bytes: 9, nanos: 3 });
    assert_eq!(transfer[0].attributes.lane_index, None);
    assert_eq!(record_transfer_finished(1, false, false, TransferStatus::Failed, 9, 0).len(), 2);
}

#[test]
fn a_stream_is_counted_as_finished_once() {
    let (mut guard, started) = LaneStreamMetricGuard::new(0, 1, false, true, 10);
    assert_eq!(started.len(), 2);
    guard.add_bytes(u64::MAX);
    guard.add_bytes(5);
    assert_eq!(guard.bytes_received, u64::MAX);
    assert_eq!(guard.finish(TransferStatus::Completed, 25).len(), 5);
    assert!(guard.finish(TransferStatus::Failed, 30).is_empty());
    assert_eq!(elapsed_nanos(10, 25), 15);
    assert_eq!(elapsed_nanos(25, 10), 0);
}

#[test]
fn progress_is_the_checkpoint_total_where_striped_else_the_offset() {
    let at = Timestamp { secs: 1, nanos: 0 };
    let now = Timestamp { secs: 2, nanos: 0 };
    let mut state: AppState<()> = AppState::new(
        String::new(),
        String::new(),
        String::new(),
        String::new(),
        vec![TransferSummary {
            transfer_id: ID,
            tenant_id: "tenant".to_owned(),
            user_id: "user".to_owned(),
            source_uri: "file:///a".to_owned(),
            destination_uri: "file:///b".to_owned(),
            file_name: "f.bin".to_owned(),
            file_size_bytes: 1_000,
            overwrite: false,
            immutable_destination: false,
            status: TransferStatus::Running,
            resume_chunk_size_bytes: MIB,
            bytes_transferred: 0,
            created_at: at,
            updated_at: at,
        }],
    );
    assert_eq!(
        persist_progress(&mut state, ID, true, 700, None, now),
        ProgressStep::AdvanceLane { offset: 700 }
    );
    assert_eq!(state.transfer(ID).expect("known").updated_at, at);
    assert_eq!(
        persist_progress(&mut state, ID, true, 700, Some(300), now),
        ProgressStep::Recorded
    );
    assert_eq!(state.transfer(ID).expect("known").bytes_transferred, 300);
    assert_eq!(state.transfer(ID).expect("known").updated_at, now);
    assert_eq!(
        persist_progress(&mut state, ID, false, 700, None, now),
        ProgressStep::Recorded
    );
    assert_eq!(state.transfer(ID).expect("known").bytes_transferred, 700);
    persist_progress(&mut state, ID, false, 5_000, Some(1), now);
    assert_eq!(state.transfer(ID).expect("known").bytes_transferred, 1_000);
}
