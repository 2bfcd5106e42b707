use metra::checkpoint::new_checkpoint;
use metra::messages::{
    QuicTransferOpenAck, Timestamp, TransferStatus, TransferSummary, RESUME_CHUNK_SIZE_BYTES,
};
use metra::receive::{FrameDecoder, LaneReceiver};
use metra::send::{
    accept_open_ack, chunk_len, open_frame, plan_lanes, FrameEncoder, LaneReader, PayloadSource,
};
use metra::session::{StreamAction, StreamSession};
use metra::state::AppState;

const AT: Timestamp = Timestamp { secs: 0, nanos: 0 };
const MIB: u64 = RESUME_CHUNK_SIZE_BYTES;

fn transfer(file_size_bytes: u64) -> TransferSummary {
    TransferSummary {
        transfer_id: 11,
        tenant_id: "tenant".to_owned(),
        user_id: "user".to_owned(),
        source_uri: "file:///a".to_owned(),
        destination_uri: "file:///b".to_owned(),
        file_name: "f.bin".to_owned(),
        file_size_bytes,
        overwrite: false,
        immutable_destination: false,
        status: TransferStatus::Queued,
        resume_chunk_size_bytes: RESUME_CHUNK_SIZE_BYTES,
        bytes_transferred: 0,
        created_at: AT,
        updated_at: AT,
    }
}

#[test]
fn every_planned_lane_is_admitted_resumed_and_sent() {
    let known = transfer(10 * MIB + 3);
    let source = PayloadSource::File("/tmp/a".to_owned());
    let mut state: AppState<()> = AppState::new(
        String::new(),
        String::new(),
        String::new(),
        String::new(),
        vec![known.clone()],
    );
    let mut checkpoint = new_checkpoint(known.transfer_id, known.file_size_bytes, 3);
    checkpoint.advance_lane(1, 6 * MIB + 17).expect("known lane");

    let mut resumed = 0;
    let mut remaining = 0;
    for lane in plan_lanes(&known, &source, 4_096, 3) {
        let open = open_frame(&lane);
        let mut session = StreamSession::open(&mut state, &open).expect("admitted");
        assert!(matches!(
            session.directory_ready(&mut state, AT),
            Ok(StreamAction::ResumeLane)
        ));
        let (resume, total) = checkpoint
            .resume_lane(
                known.file_size_bytes,
                3,
                lane.range_start,
                lane.range_end_exclusive,
                lane.lane_index,
            )
            .expect("the lane fits");
        session.lane_resumed(&mut state, resume, total, AT).expect("begun");
        session.start_stored(&mut state, 0);
        let StreamAction::SendOpenAck(ack) = session.staging_sized() else {
            panic!("the stream is acknowledged")
        };
        let point = accept_open_ack(&lane, &ack).expect("the client goes on");
        let encoder = FrameEncoder::negotiated(&lane, &ack).expect("a known codec");
        let decoder = FrameDecoder::new(
            session.plan().transfer_id,
            session.plan().lane_index,
            session.plan().payload_codec,
        );
        let frame = encoder.encode(b"payload", [7; 12]).expect("frame");
        let mut header = [0u8; 16];
        header.copy_from_slice(&frame[..16]);
        let read = decoder.read_header(header).expect("header");
        assert_eq!(
            decoder
                .decode(read.plaintext_len, read.nonce, &frame[16..])
                .expect("plaintext"),
            b"payload".to_vec()
        );
        let (action, _) = session.open_ack_sent(0);
        let StreamAction::ReceivePayload { expected_bytes, .. } = action else {
            panic!("the payload is received")
        };
        assert_eq!(point.remaining_bytes, expected_bytes);
        resumed += point.resumed_from_bytes;
        remaining += point.remaining_bytes;
    }
    assert_eq!(resumed, checkpoint.total_transferred());
    assert!(resumed > 0);
    assert_eq!(resumed + remaining, known.file_size_bytes);
}

#[test]
fn staged_and_streamed_bytes_make_up_the_file() {
    let file: Vec<u8> = (0..1_003u32).map(|n| (n * 7 % 251) as u8).collect();
    let known = transfer(file.len() as u64);
    let source = PayloadSource::File("/tmp/a".to_owned());
    for lanes in [1, 3] {
        for codec in ["raw-v1", "aead-chacha20poly1305-v1"] {
            let mut upload = Vec::new();
            for lane in plan_lanes(&known, &source, 64, lanes) {
                let staged = 40 * (lane.lane_index as u64 + 1);
                let ack = QuicTransferOpenAck {
                    ok: true,
                    resume_offset_bytes: lane.range_start + staged,
                    message: String::new(),
                    payload_codec: codec.to_owned(),
                    receive_write_pipeline_depth: 4,
                };
                let point = accept_open_ack(&lane, &ack).expect("the client goes on");
                let encoder = FrameEncoder::negotiated(&lane, &ack).expect("a known codec");
                let mut reader = LaneReader::new(lane.lane_index, point.remaining_bytes);
                let mut at = point.resume_offset as usize;
                let mut wire = Vec::new();
                while reader.wants_chunk() {
                    let len = reader.next_len(chunk_len(lane.io_chunk_bytes));
                    wire.extend(encoder.encode(&file[at..at + len], [at as u8; 12]).expect("frame"));
                    reader.chunk_read(len).expect("more");
                    at += len;
                }

                upload.extend(&file[lane.range_start as usize..point.resume_offset as usize]);
                let payload_codec =
                    metra::codec::PayloadCodec::from_wire(codec).expect("a known codec");
                let decoder = FrameDecoder::new(lane.transfer_id, lane.lane_index, payload_codec);
                let mut receiver =
                    LaneReceiver::new(lane.transfer_id, lane.lane_index, point.remaining_bytes);
                let mut from = 0;
                while receiver.wants_frame() {
                    let mut header = [0u8; 16];
                    header.copy_from_slice(&wire[from..from + 16]);
                    let frame = decoder.read_header(header).expect("header");
                    receiver.admit_frame(frame.plaintext_len).expect("fits");
                    let end = from + 16 + frame.wire_len;
                    upload.extend(
                        decoder
                            .decode(frame.plaintext_len, frame.nonce, &wire[from + 16..end])
                            .expect("plaintext"),
                    );
                    from = end;
                }
                assert_eq!(from, wire.len());
            }
            assert_eq!(upload, file);
        }
    }
}
