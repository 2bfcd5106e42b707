use metra::codec::{
    encode_payload_frame, AeadLaneCodec, PayloadCodec, APP_PAYLOAD_MAX_PLAINTEXT_BYTES,
};
use metra::messages::{
    QuicTransferCompleteAck, QuicTransferOpenAck, Timestamp, TransferStatus, TransferSummary,
    RESUME_CHUNK_SIZE_BYTES,
};
use metra::send::{
    accept_open_ack, check_local_size, check_protocol_version, check_send_settings, chunk_len,
    open_frame, plan_lanes, status_name, transfer_report, FrameEncoder, LaneReader, LaneTotals,
    LaneTransferResult, LaneWriter, PayloadSource, SendFault,
};
use metra::throughput::Throughput;

const AT: Timestamp = Timestamp { secs: 1, nanos: 2 };

fn transfer() -> TransferSummary {
    TransferSummary {
        transfer_id: 5,
        tenant_id: "t".to_owned(),
        user_id: "u".to_owned(),
        source_uri: "s".to_owned(),
        destination_uri: "d".to_owned(),
        file_name: "f.bin".to_owned(),
        file_size_bytes: 10,
        overwrite: false,
        immutable_destination: false,
        status: TransferStatus::Queued,
        resume_chunk_size_bytes: RESUME_CHUNK_SIZE_BYTES,
        bytes_transferred: 0,
        created_at: AT,
        updated_at: AT,
    }
}

fn ack(bytes_received: u64, status: TransferStatus, message: &str) -> QuicTransferCompleteAck {
    QuicTransferCompleteAck {
        ok: status == TransferStatus::Completed,
        status,
        bytes_received,
        message: message.to_owned(),
        updated_at: AT,
    }
}

fn open_ack(ok: bool, resume_offset_bytes: u64) -> QuicTransferOpenAck {
    QuicTransferOpenAck {
        ok,
        resume_offset_bytes,
        message: "busy".to_owned(),
        payload_codec: "aead-chacha20poly1305-v1".to_owned(),
        receive_write_pipeline_depth: 4,
    }
}

#[test]
fn settings_are_checked_before_sending() {
    assert!(check_send_settings(1, 1).is_ok());
    assert_eq!(
        check_send_settings(0, 0).expect_err("fault").message(),
        "io_chunk_bytes must be > 0"
    );
    assert_eq!(
        check_send_settings(1, 0).expect_err("fault").message(),
        "lanes must be > 0"
    );
    assert!(check_local_size(5, 5).is_ok());
    assert_eq!(
        check_local_size(4, 5).expect_err("fault").message(),
        "local file size 4 does not match transfer size 5"
    );
    assert!(check_protocol_version("metra-quic-v1").is_ok());
    assert_eq!(
        check_protocol_version("metra-quic-v2").expect_err("fault").message(),
        "server protocol version mismatch: got metra-quic-v2, expected metra-quic-v1"
    );
}

#[test]
fn sources_are_labelled() {
    let file = PayloadSource::File("/tmp/a".to_owned());
    assert_eq!(file.label(), "/tmp/a");
    let zeros = PayloadSource::GeneratedZeros {
        label: "generated://zeros/5".to_owned(),
    };
    assert_eq!(zeros.clone().label(), "generated://zeros/5");
}

#[test]
fn lanes_are_planned_over_the_whole_file() {
    let source = PayloadSource::File("/tmp/a".to_owned());
    let lanes = plan_lanes(&transfer(), &source, 4_096, 3);
    let ranges: Vec<(u64, u64)> = lanes
        .iter()
        .map(|lane| (lane.range_start, lane.range_end_exclusive))
        .collect();
    assert_eq!(ranges, vec![(0, 4), (4, 7), (7, 10)]);
    assert_eq!(plan_lanes(&transfer(), &source, 4_096, 64).len(), 10);
    assert_eq!(plan_lanes(&transfer(), &source, 4_096, 0).len(), 1);

    let open = open_frame(&lanes[1]);
    assert_eq!(open.transfer_id, 5);
    assert_eq!(open.file_size_bytes, 10);
    assert_eq!(open.file_name, "f.bin");
    assert_eq!(open.resume_chunk_size_bytes, RESUME_CHUNK_SIZE_BYTES);
    assert_eq!((open.lane_index, open.total_lanes), (1, 3));
    assert_eq!((open.range_start, open.range_end_exclusive), (4, 7));
    assert_eq!(open.payload_codec, "aead-chacha20poly1305-v1");
    assert_eq!(open.receive_write_pipeline_depth, 4);
}

#[test]
fn the_answer_to_an_open_lane_is_checked() {
    let source = PayloadSource::File("/tmp/a".to_owned());
    let lanes = plan_lanes(&transfer(), &source, 4_096, 3);
    let point = accept_open_ack(&lanes[1], &open_ack(true, 6)).expect("accepted");
    assert_eq!(point.resume_offset, 6);
    assert_eq!(point.resumed_from_bytes, 2);
    assert_eq!(point.remaining_bytes, 1);
    assert_eq!(
        accept_open_ack(&lanes[1], &open_ack(false, 6)).expect_err("fault").message(),
        "server rejected transfer open for lane 1: busy"
    );
    assert_eq!(
        accept_open_ack(&lanes[1], &open_ack(true, 3)).expect_err("fault").message(),
        "invalid resume offset 3 for lane 1 range 4..7"
    );
    assert_eq!(
        accept_open_ack(&lanes[1], &open_ack(true, 8)).expect_err("fault").message(),
        "invalid resume offset 8 for lane 1 range 4..7"
    );
}

#[test]
fn a_lane_is_read_and_streamed_to_its_end() {
    let mut reader = LaneReader::new(2, 10);
    let mut writer = LaneWriter::new(2, 10);
    let mut lens = Vec::new();
    while reader.wants_chunk() {
        let len = reader.next_len(4);
        reader.chunk_read(len).expect("more");
        writer.chunk_sent(len);
        lens.push(len);
    }
    assert_eq!(lens, vec![4, 4, 2]);
    assert!(!writer.wants_chunk());
    assert_eq!(writer.finish().expect("whole"), 10);

    let mut reader = LaneReader::new(2, 10);
    reader.chunk_read(3).expect("more");
    assert_eq!(
        reader.chunk_read(0).expect_err("fault").message(),
        "unexpected EOF while sending lane 2 (remaining 7 bytes)"
    );
    let mut writer = LaneWriter::new(2, 10);
    writer.chunk_sent(12);
    assert_eq!(
        writer.finish().expect_err("fault").message(),
        "lane 2 streamed 12 bytes but expected 10"
    );
}

#[test]
fn lanes_are_summed_up_and_the_first_best_answer_is_kept() {
    let mut totals = LaneTotals::new();
    for (streamed, resumed, answer) in [
        (3, 1, ack(4, TransferStatus::Running, "one")),
        (2, 1, ack(10, TransferStatus::Completed, "two")),
        (3, 0, ack(10, TransferStatus::Failed, "three")),
    ] {
        totals.add_lane(LaneTransferResult {
            bytes_streamed: streamed,
            resumed_from_bytes: resumed,
            complete_ack: answer,
        });
    }
    let source = PayloadSource::File("/tmp/a".to_owned());
    let rate = Throughput { bits: 1.5f64.to_bits() };
    let report = transfer_report(
        &transfer(),
        &source,
        3,
        Some("note".to_owned()),
        totals,
        12,
        rate,
    )
    .expect("report");
    assert_eq!(report.transfer_id, 5);
    assert_eq!(report.file_path, "/tmp/a");
    assert_eq!(report.file_size_bytes, 10);
    assert_eq!(report.effective_lanes, 3);
    assert_eq!(report.lane_selection, Some("note".to_owned()));
    assert_eq!(report.bytes_streamed_this_session, 8);
    assert_eq!(report.resumed_from_bytes, 2);
    assert_eq!(report.total_streamed_bytes, 10);
    assert_eq!(report.elapsed_ms, 12);
    assert_eq!(report.average_gbps, rate);
    assert_eq!(report.final_status, "Completed");
    assert_eq!(report.message, "two");

    let nothing = transfer_report(
        &transfer(),
        &source,
        3,
        None,
        LaneTotals::new(),
        12,
        rate,
    );
    assert_eq!(
        nothing.expect_err("fault").message(),
        "no completion ack received from server"
    );
    assert!(matches!(LaneTotals::new().finish(), Err(SendFault::NoCompletion)));
}

#[test]
fn statuses_are_named_as_they_are_debugged() {
    for status in [
        TransferStatus::Queued,
        TransferStatus::Running,
        TransferStatus::Completed,
        TransferStatus::Failed,
    ] {
        assert_eq!(status_name(status), format!("{status:?}"));
    }
}

#[test]
fn chunks_are_framed_with_the_codec_of_the_answer() {
    let source = PayloadSource::File("/tmp/a".to_owned());
    let lanes = plan_lanes(&transfer(), &source, 4, 2);
    let key = AeadLaneCodec::new(5, 1);
    let mut answer = open_ack(true, 5);
    let encoder = FrameEncoder::negotiated(&lanes[1], &answer).expect("known codec");
    assert_eq!(
        encoder.encode(b"abc", [3; 12]),
        encode_payload_frame(PayloadCodec::AeadV1, b"abc", [3; 12], Some(&key))
    );
    assert_eq!(encoder.encode(b"abc", [3; 12]).expect("frame").len(), 16 + 3 + 16);
    assert!(encoder.encode(b"", [3; 12]).is_err());

    answer.payload_codec = "raw-v1".to_owned();
    let encoder = FrameEncoder::negotiated(&lanes[1], &answer).expect("known codec");
    let frame = encoder.encode(b"abc", [3; 12]).expect("frame");
    assert_eq!(&frame[16..], b"abc");
    assert_eq!(
        encoder.encode(b"", [3; 12]).expect_err("empty chunk"),
        "plaintext frame length must be > 0"
    );

    answer.payload_codec = "zip-v1".to_owned();
    assert!(FrameEncoder::negotiated(&lanes[1], &answer).is_none());
}

#[test]
fn chunks_fit_a_frame() {
    assert_eq!(chunk_len(0), 1);
    assert_eq!(chunk_len(1), 1);
    assert_eq!(chunk_len(4_096), 4_096);
    assert_eq!(chunk_len(APP_PAYLOAD_MAX_PLAINTEXT_BYTES), APP_PAYLOAD_MAX_PLAINTEXT_BYTES);
    assert_eq!(chunk_len(APP_PAYLOAD_MAX_PLAINTEXT_BYTES + 1), APP_PAYLOAD_MAX_PLAINTEXT_BYTES);
}
