//! What a client and a server agree on, though neither sees the other's state.

use crate::checkpoint;
use crate::checkpoint::TransferCheckpoint;
use crate::codec::PayloadCodec;
use crate::codec;
use crate::messages;
use crate::messages::{QuicTransferOpen, QuicTransferOpenAck, TransferSummary, TRANSFER_LANES_MAX};
use crate::ranges;
use crate::receive;
use crate::send;
use crate::send::{LaneConfig, PayloadSource};
use crate::session;
use crate::session::SessionView;
use crate::state::StateView;
use crate::upload;
use vstd::prelude::*;
use vstd::string::*;

verus! {

/// Whether a frame opens this lane with the default codec, as a client writes it.
pub open spec fn opens_lane(open: QuicTransferOpen, lane: LaneConfig) -> bool {
    &&& open.transfer_id == lane.transfer_id
    &&& open.file_size_bytes == lane.file_size_bytes
    &&& open.resume_chunk_size_bytes == lane.resume_chunk_size_bytes
    &&& open.lane_index == lane.lane_index
    &&& open.total_lanes == lane.total_lanes
    &&& open.range_start == lane.range_start
    &&& open.range_end_exclusive == lane.range_end_exclusive
    &&& open.payload_codec@ == codec::APP_PAYLOAD_CODEC_DEFAULT@
}

/// Every lane that a client plans for a transfer is admitted by the server that knows the transfer,
/// unless the lane is being written already or the client wants more lanes than the server takes.
pub proof fn planned_lanes_are_admitted<L>(
    state: StateView<L>,
    transfer: TransferSummary,
    source: PayloadSource,
    io_chunk_bytes: usize,
    lanes: u32,
    i: int,
    open: QuicTransferOpen,
)
    requires
        state.transfer(transfer.transfer_id) == Some(transfer),
        transfer.file_size_bytes > 0,
        messages::is_storage_id(transfer.tenant_id@),
        messages::is_storage_id(transfer.user_id@),
        lanes <= TRANSFER_LANES_MAX,
        0 <= i < ranges::usable_lanes(lanes, transfer.file_size_bytes),
        !state.lane_writers.contains((transfer.transfer_id, i as u32)),
        opens_lane(
            open,
            send::lane_config(
                transfer,
                source,
                io_chunk_bytes,
                ranges::usable_lanes(lanes, transfer.file_size_bytes),
                i,
            ),
        ),
    ensures
        upload::open_fault(state, open) is None,
        upload::is_striped(open) <==> ranges::usable_lanes(lanes, transfer.file_size_bytes) > 1,
{
    let used = ranges::usable_lanes(lanes, transfer.file_size_bytes);
    ranges::usable_lanes_are_never_empty(lanes, transfer.file_size_bytes, i);
    ranges::lane_ranges_partition_the_file(transfer.file_size_bytes, used);
    codec::codec_names_are_inverse(PayloadCodec::AeadV1, open.payload_codec@);
}

/// The checkpoint that a server starts for a transfer fits every lane that a client plans for it.
pub proof fn planned_lanes_fit_a_fresh_checkpoint(
    transfer: TransferSummary,
    source: PayloadSource,
    io_chunk_bytes: usize,
    lanes: u32,
    i: int,
    progress: TransferCheckpoint,
)
    requires
        0 <= i < ranges::usable_lanes(lanes, transfer.file_size_bytes),
        progress.file_size_bytes == transfer.file_size_bytes,
        progress.total_lanes == ranges::usable_lanes(lanes, transfer.file_size_bytes),
        progress.lanes@ == checkpoint::fresh_lanes(progress.file_size_bytes, progress.total_lanes),
    ensures
        ({
            let lane = send::lane_config(
                transfer,
                source,
                io_chunk_bytes,
                ranges::usable_lanes(lanes, transfer.file_size_bytes),
                i,
            );
            checkpoint::layout_fault(
                progress,
                lane.file_size_bytes,
                lane.total_lanes,
                lane.range_start,
                lane.range_end_exclusive,
                lane.lane_index,
            ) is None
        }),
{
    checkpoint::fresh_checkpoint_covers_the_file(progress, i as u32);
}

/// The answer of a server to a lane that it admitted lets the client send. The client streams exactly
/// what the server expects, and both frame it with the same codec and the key of the same lane.
pub proof fn accepted_lanes_are_sent(
    lane: LaneConfig,
    open: QuicTransferOpen,
    known: TransferSummary,
    stream: SessionView,
    ack: QuicTransferOpenAck,
)
    requires
        opens_lane(open, lane),
        lane.range_end_exclusive > 0,
        stream.plan.answers(open, known),
        stream.wf(),
        session::is_resolved(stream.phase),
        session::is_open_ack(ack, stream),
    ensures
        send::open_ack_fault(lane, ack) is None,
        lane.range_end_exclusive - ack.resume_offset_bytes == stream.expected_bytes(),
        ack.payload_codec@ == open.payload_codec@,
        PayloadCodec::named(ack.payload_codec@) == Some(stream.plan.payload_codec),
        lane.transfer_id == stream.plan.transfer_id,
        lane.lane_index == stream.plan.lane_index,
{
    codec::codec_names_are_inverse(stream.plan.payload_codec, open.payload_codec@);
}

/// What a server has staged of a file and what it receives of a client that streams the rest make up
/// the file.
pub proof fn resumed_upload_is_the_file(
    payload_codec: PayloadCodec,
    lane: Option<(u128, u32)>,
    file: Seq<u8>,
    staged: nat,
    frames: Seq<Seq<u8>>,
    chunks: Seq<Seq<u8>>,
)
    requires
        staged <= file.len(),
        frames.len() == chunks.len(),
        forall|i: int|
            0 <= i < frames.len() ==> receive::frames_chunk(
                payload_codec,
                lane,
                #[trigger] frames[i],
                chunks[i],
            ),
        chunks.flatten() == file.skip(staged as int),
    ensures
        receive::lane_payload(
            payload_codec,
            lane,
            frames.flatten(),
            (file.len() - staged) as nat,
        ) matches Some(received) && file.take(staged as int) + received == file,
{
    receive::framed_payload_arrives(payload_codec, lane, frames, chunks);
    assert(file.take(staged as int) + file.skip(staged as int) =~= file);
}

/// What a client sends of one lane: the offset that it resumes at, the chunks that it reads from there
/// on, and their frames.
pub struct LaneStream {
    pub resume_offset: u64,
    pub frames: Seq<Seq<u8>>,
    pub chunks: Seq<Seq<u8>>,
}

/// Whether a stream sends the rest of the range of a lane, framed for this lane of this transfer.
pub open spec fn streams_the_rest(
    stream: LaneStream,
    payload_codec: PayloadCodec,
    transfer_id: u128,
    lane_index: u32,
    file: Seq<u8>,
    range: (u64, u64),
) -> bool {
    &&& range.0 <= stream.resume_offset <= range.1
    &&& stream.frames.len() == stream.chunks.len()
    &&& forall|i: int|
        0 <= i < stream.frames.len() ==> receive::frames_chunk(
            payload_codec,
            receive::keyed_lane(payload_codec, transfer_id, lane_index),
            #[trigger] stream.frames[i],
            stream.chunks[i],
        )
    &&& stream.chunks.flatten() == file.subrange(stream.resume_offset as int, range.1 as int)
}

/// The bytes of the range of a lane once its stream has ended: those that were staged, and those that
/// were received.
pub open spec fn uploaded_lane(
    stream: LaneStream,
    payload_codec: PayloadCodec,
    transfer_id: u128,
    lane_index: u32,
    file: Seq<u8>,
    range: (u64, u64),
) -> Option<Seq<u8>> {
    match receive::lane_payload(
        payload_codec,
        receive::keyed_lane(payload_codec, transfer_id, lane_index),
        stream.frames.flatten(),
        (range.1 - stream.resume_offset) as nat,
    ) {
        Some(received) => Some(
            file.subrange(range.0 as int, stream.resume_offset as int) + received,
        ),
        None => None,
    }
}

proof fn resumed_lane_is_its_range(
    stream: LaneStream,
    payload_codec: PayloadCodec,
    transfer_id: u128,
    lane_index: u32,
    file: Seq<u8>,
    range: (u64, u64),
)
    requires
        range.1 <= file.len(),
        streams_the_rest(stream, payload_codec, transfer_id, lane_index, file, range),
    ensures
        uploaded_lane(stream, payload_codec, transfer_id, lane_index, file, range) == Some(
            file.subrange(range.0 as int, range.1 as int),
        ),
{
    receive::framed_payload_arrives(
        payload_codec,
        receive::keyed_lane(payload_codec, transfer_id, lane_index),
        stream.frames,
        stream.chunks,
    );
    assert(file.subrange(range.0 as int, stream.resume_offset as int) + file.subrange(
        stream.resume_offset as int,
        range.1 as int,
    ) =~= file.subrange(range.0 as int, range.1 as int));
}

/// The bytes of all lanes once their streams have ended, one lane behind the other.
pub open spec fn uploaded_lanes(
    streams: Seq<LaneStream>,
    payload_codec: PayloadCodec,
    transfer_id: u128,
    file: Seq<u8>,
    lanes: u32,
) -> Seq<Option<Seq<u8>>> {
    Seq::new(
        lanes as nat,
        |i: int|
            uploaded_lane(
                streams[i],
                payload_codec,
                transfer_id,
                i as u32,
                file,
                ranges::lane_ranges(file.len(), lanes as nat)[i],
            ),
    )
}

/// What a server has staged of each lane and what it receives of the rest of each lane make up the
/// range of the lane, and the lanes, one behind the other, make up the file.
pub proof fn resumed_lanes_are_the_file(
    payload_codec: PayloadCodec,
    transfer_id: u128,
    file: Seq<u8>,
    lanes: u32,
    streams: Seq<LaneStream>,
)
    requires
        lanes > 0,
        file.len() <= u64::MAX,
        streams.len() == lanes,
        forall|i: int|
            0 <= i < lanes ==> streams_the_rest(
                #[trigger] streams[i],
                payload_codec,
                transfer_id,
                i as u32,
                file,
                ranges::lane_ranges(file.len(), lanes as nat)[i],
            ),
    ensures
        ({
            let uploaded = uploaded_lanes(streams, payload_codec, transfer_id, file, lanes);
            let cuts = ranges::lane_ranges(file.len(), lanes as nat);
            &&& forall|i: int|
                0 <= i < lanes ==> #[trigger] uploaded[i] == Some(
                    file.subrange(cuts[i].0 as int, cuts[i].1 as int),
                )
            &&& uploaded.map_values(|part: Option<Seq<u8>>| part->0).flatten() == file
        }),
{
    let uploaded = uploaded_lanes(streams, payload_codec, transfer_id, file, lanes);
    let cuts = ranges::lane_ranges(file.len(), lanes as nat);
    ranges::lane_ranges_partition_the_file(file.len() as u64, lanes);
    assert forall|i: int| 0 <= i < lanes implies #[trigger] uploaded[i] == Some(
        file.subrange(cuts[i].0 as int, cuts[i].1 as int),
    ) by {
        assert(cuts[i].1 <= file.len());
        resumed_lane_is_its_range(
            streams[i],
            payload_codec,
            transfer_id,
            i as u32,
            file,
            cuts[i],
        );
    }
    let parts = uploaded.map_values(|part: Option<Seq<u8>>| part->0);
    assert forall|i: int| 0 <= i < lanes implies #[trigger] parts[i] == file.subrange(
        cuts[i].0 as int,
        cuts[i].1 as int,
    ) by {
        assert(uploaded[i] is Some);
    }
    lanes_join_up_to_a_cut(parts, file, lanes, lanes as nat);
    ranges::lane_cuts_partition(file.len(), lanes as nat, 0);
    assert(parts.take(lanes as int) =~= parts);
    assert(file.take(file.len() as int) =~= file);
}

proof fn lanes_join_up_to_a_cut(parts: Seq<Seq<u8>>, file: Seq<u8>, lanes: u32, n: nat)
    requires
        lanes > 0,
        file.len() <= u64::MAX,
        parts.len() == lanes,
        n <= lanes,
        forall|i: int|
            0 <= i < lanes ==> #[trigger] parts[i] == ({
                let range = ranges::lane_ranges(file.len(), lanes as nat)[i];
                file.subrange(range.0 as int, range.1 as int)
            }),
    ensures
        ranges::lane_cut(file.len(), lanes as nat, n) <= file.len(),
        parts.take(n as int).flatten() == file.take(
            ranges::lane_cut(file.len(), lanes as nat, n) as int,
        ),
    decreases n,
{
    if n == 0 {
        ranges::lane_cuts_partition(file.len(), lanes as nat, 0);
        assert(parts.take(0) =~= Seq::empty());
        assert(file.take(0) =~= Seq::empty());
    } else {
        let m = (n - 1) as nat;
        lanes_join_up_to_a_cut(parts, file, lanes, m);
        ranges::lane_cuts_partition(file.len(), lanes as nat, m);
        let start = ranges::lane_cut(file.len(), lanes as nat, m) as int;
        let end = ranges::lane_cut(file.len(), lanes as nat, n) as int;
        assert(parts.take(n as int) =~= parts.take(m as int).push(parts[m as int]));
        parts.take(m as int).lemma_flatten_push(parts[m as int]);
        assert(parts[m as int] == file.subrange(start, end));
        assert(file.take(start) + file.subrange(start, end) =~= file.take(end));
    }
}

/// An admitted stream keeps its payload unless the scheme of its destination, the text before the
/// first "://", is null, memory or mem. A payload that is kept is never finalized in memory: it is
/// finalized on disk, or with the other lanes of its transfer.
pub proof fn payloads_for_other_destinations_are_kept(
    open: QuicTransferOpen,
    summary: TransferSummary,
    session: SessionView,
    at: int,
    bytes_received: u64,
)
    requires
        session.plan.answers(open, summary),
        ({
            let uri = summary.destination_uri@;
            &&& 0 <= at <= uri.len() - 3
            &&& uri.subrange(at, at + 3) == seq![':', '/', '/']
            &&& forall|k: int| 0 <= k < at ==> #[trigger] uri.subrange(k, k + 3) != seq![':', '/', '/']
        }),
    ensures
        ({
            let scheme = summary.destination_uri@.take(at);
            let dropped = scheme == seq!['n', 'u', 'l', 'l'] || scheme == seq![
                'm',
                'e',
                'm',
                'o',
                'r',
                'y',
            ] || scheme == seq!['m', 'e', 'm'];
            &&& session.plan.discard_payload <==> dropped
            &&& !dropped ==> session.finalize_action(bytes_received) !is FinalizeInMemory
            &&& !dropped && !session.plan.striped ==> session.finalize_action(bytes_received) == (
            session::StreamAction::FinalizeOnDisk { bytes_received })
        }),
{
    upload::only_null_and_memory_schemes_are_dropped(summary.destination_uri@, at);
}

} // verus!
