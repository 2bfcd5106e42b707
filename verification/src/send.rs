//! Sending a transfer: how it is cut into lanes, what each lane asks of the server, and what is made
//! of the answers.

use crate::codec;
use crate::codec::{
    encode_payload_frame, AeadLaneCodec, PayloadCodec, APP_PAYLOAD_CODEC_DEFAULT,
    APP_PAYLOAD_MAX_PLAINTEXT_BYTES, APP_RECEIVE_WRITE_PIPELINE_DEPTH_DEFAULT,
};
use crate::messages::{
    QuicTransferCompleteAck, QuicTransferOpen, QuicTransferOpenAck, TransferStatus,
    TransferSummary, QUIC_PROTOCOL_VERSION,
};
use crate::ranges;
use crate::ranges::{normalized_lane_count, split_ranges};
use crate::receive;
use crate::text;
use crate::text::{push_decimal, same_text, with_number, with_two_numbers};
use crate::throughput::Throughput;
use vstd::prelude::*;
use vstd::string::*;

verus! {

/// How many chunks of a file are read ahead of the network.
pub const FILE_READ_PIPELINE_DEPTH: usize = 4;

/// Where the payload of a transfer comes from.
#[derive(Debug)]
pub enum PayloadSource {
    File(String),
    GeneratedZeros { label: String },
}

impl Clone for PayloadSource {
    fn clone(&self) -> (r: Self)
        ensures
            r == *self,
    {
        match self {
            PayloadSource::File(path) => PayloadSource::File(path.clone()),
            PayloadSource::GeneratedZeros { label } => PayloadSource::GeneratedZeros {
                label: label.clone(),
            },
        }
    }
}

impl PayloadSource {
    /// The name under which the source is reported.
    pub open spec fn name(self) -> String {
        match self {
            PayloadSource::File(path) => path,
            PayloadSource::GeneratedZeros { label } => label,
        }
    }

    pub fn label(&self) -> (r: String)
        ensures
            r == self.name(),
            *self matches PayloadSource::File(path) ==> r == path,
            *self matches PayloadSource::GeneratedZeros { label } ==> r == label,
    {
        match self {
            PayloadSource::File(path) => path.clone(),
            PayloadSource::GeneratedZeros { label } => label.clone(),
        }
    }
}

/// Why a transfer is not sent, or not to its end.
#[derive(Debug)]
pub enum SendFault {
    NoChunkSize,
    NoLanes,
    LocalSizeMismatch { local_size: u64, transfer_size: u64 },
    ProtocolMismatch { server_version: String },
    Rejected { lane_index: u32, reason: String },
    InvalidResume { resume_offset: u64, lane_index: u32, range_start: u64, range_end: u64 },
    UnexpectedEnd { lane_index: u32, remaining: u64 },
    StreamedMismatch { lane_index: u32, streamed: u64, expected: u64 },
    NoCompletion,
}

impl SendFault {
    /// The fault in words.
    pub open spec fn text(self) -> Seq<char> {
        match self {
            SendFault::NoChunkSize => "io_chunk_bytes must be > 0"@,
            SendFault::NoLanes => "lanes must be > 0"@,
            SendFault::LocalSizeMismatch { local_size, transfer_size } => "local file size "@
                + text::decimal(local_size as nat) + " does not match transfer size "@
                + text::decimal(transfer_size as nat),
            SendFault::ProtocolMismatch { server_version } =>
                "server protocol version mismatch: got "@ + server_version@ + ", expected "@
                    + QUIC_PROTOCOL_VERSION@,
            SendFault::Rejected { lane_index, reason } =>
                "server rejected transfer open for lane "@ + text::decimal(lane_index as nat)
                    + ": "@ + reason@,
            SendFault::InvalidResume { resume_offset, lane_index, range_start, range_end } =>
                "invalid resume offset "@ + text::decimal(resume_offset as nat) + " for lane "@
                    + text::decimal(lane_index as nat) + " range "@ + text::decimal(
                    range_start as nat,
                ) + ".."@ + text::decimal(range_end as nat),
            SendFault::UnexpectedEnd { lane_index, remaining } =>
                "unexpected EOF while sending lane "@ + text::decimal(lane_index as nat)
                    + " (remaining "@ + text::decimal(remaining as nat) + " bytes)"@,
            SendFault::StreamedMismatch { lane_index, streamed, expected } => "lane "@
                + text::decimal(lane_index as nat) + " streamed "@ + text::decimal(streamed as nat)
                + " bytes but expected "@ + text::decimal(expected as nat),
            SendFault::NoCompletion => "no completion ack received from server"@,
        }
    }

    pub fn message(&self) -> (r: String)
        ensures
            r@ == self.text(),
    {
        match self {
            SendFault::NoChunkSize => "io_chunk_bytes must be > 0".to_owned(),
            SendFault::NoLanes => "lanes must be > 0".to_owned(),
            SendFault::LocalSizeMismatch { local_size, transfer_size } => with_two_numbers(
                "local file size ",
                *local_size,
                " does not match transfer size ",
                *transfer_size,
            ),
            SendFault::ProtocolMismatch { server_version } => {
                let mut message = "server protocol version mismatch: got ".to_owned();
                message.append(server_version.as_str());
                message.append(", expected ");
                message.append(QUIC_PROTOCOL_VERSION);
                message
            },
            SendFault::Rejected { lane_index, reason } => {
                let mut message = with_number(
                    "server rejected transfer open for lane ",
                    *lane_index as u64,
                );
                message.append(": ");
                message.append(reason.as_str());
                message
            },
            SendFault::InvalidResume { resume_offset, lane_index, range_start, range_end } => {
                let mut message = with_two_numbers(
                    "invalid resume offset ",
                    *resume_offset,
                    " for lane ",
                    *lane_index as u64,
                );
                message.append(" range ");
                push_decimal(&mut message, *range_start);
                message.append("..");
                push_decimal(&mut message, *range_end);
                message
            },
            SendFault::UnexpectedEnd { lane_index, remaining } => {
                let mut message = with_two_numbers(
                    "unexpected EOF while sending lane ",
                    *lane_index as u64,
                    " (remaining ",
                    *remaining,
                );
                message.append(" bytes)");
                message
            },
            SendFault::StreamedMismatch { lane_index, streamed, expected } => {
                let mut message = with_two_numbers(
                    "lane ",
                    *lane_index as u64,
                    " streamed ",
                    *streamed,
                );
                message.append(" bytes but expected ");
                push_decimal(&mut message, *expected);
                message
            },
            SendFault::NoCompletion => "no completion ack received from server".to_owned(),
        }
    }
}

/// Whether a transfer can be sent with these settings.
pub fn check_send_settings(io_chunk_bytes: usize, lanes: u32) -> (r: Result<(), SendFault>)
    ensures
        match r {
            Ok(()) => io_chunk_bytes > 0 && lanes > 0,
            Err(fault) => fault == (if io_chunk_bytes == 0 {
                SendFault::NoChunkSize
            } else {
                SendFault::NoLanes
            }) && (io_chunk_bytes == 0 || lanes == 0),
        },
{
    if io_chunk_bytes == 0 {
        return Err(SendFault::NoChunkSize);
    }
    if lanes == 0 {
        return Err(SendFault::NoLanes);
    }
    Ok(())
}

/// Whether the local file is as long as the transfer says.
pub fn check_local_size(local_size: u64, transfer_size: u64) -> (r: Result<(), SendFault>)
    ensures
        match r {
            Ok(()) => local_size == transfer_size,
            Err(fault) => local_size != transfer_size && fault == (SendFault::LocalSizeMismatch {
                local_size,
                transfer_size,
            }),
        },
{
    if local_size != transfer_size {
        return Err(SendFault::LocalSizeMismatch { local_size, transfer_size });
    }
    Ok(())
}

/// Whether the server speaks the protocol of this client.
pub fn check_protocol_version(server_version: &str) -> (r: Result<(), SendFault>)
    ensures
        match r {
            Ok(()) => server_version@ == QUIC_PROTOCOL_VERSION@,
            Err(fault) => {
                &&& server_version@ != QUIC_PROTOCOL_VERSION@
                &&& fault matches SendFault::ProtocolMismatch { server_version: found } && found@
                    == server_version@
            },
        },
{
    if !same_text(server_version, QUIC_PROTOCOL_VERSION) {
        return Err(SendFault::ProtocolMismatch { server_version: server_version.to_owned() });
    }
    Ok(())
}

/// What one lane of a transfer is to carry.
#[derive(Debug)]
pub struct LaneConfig {
    pub transfer_id: u128,
    pub file_size_bytes: u64,
    pub file_name: String,
    pub resume_chunk_size_bytes: u64,
    pub source: PayloadSource,
    pub io_chunk_bytes: usize,
    pub lane_index: u32,
    pub total_lanes: u32,
    pub range_start: u64,
    pub range_end_exclusive: u64,
}

/// The lane `i` of a transfer that is sent with `lanes` lanes.
pub open spec fn lane_config(
    transfer: TransferSummary,
    source: PayloadSource,
    io_chunk_bytes: usize,
    lanes: u32,
    i: int,
) -> LaneConfig {
    let range = ranges::lane_ranges(transfer.file_size_bytes as nat, lanes as nat)[i];
    LaneConfig {
        transfer_id: transfer.transfer_id,
        file_size_bytes: transfer.file_size_bytes,
        file_name: transfer.file_name,
        resume_chunk_size_bytes: transfer.resume_chunk_size_bytes,
        source,
        io_chunk_bytes,
        lane_index: i as u32,
        total_lanes: lanes,
        range_start: range.0,
        range_end_exclusive: range.1,
    }
}

/// Cuts a transfer into lanes: as many as asked for, but no more than it has bytes.
pub fn plan_lanes(
    transfer: &TransferSummary,
    source: &PayloadSource,
    io_chunk_bytes: usize,
    lanes: u32,
) -> (r: Vec<LaneConfig>)
    ensures
        ({
            let used = ranges::usable_lanes(lanes, transfer.file_size_bytes);
            &&& r@.len() == used
            &&& forall|i: int|
                0 <= i < used ==> #[trigger] r@[i] == lane_config(
                    *transfer,
                    *source,
                    io_chunk_bytes,
                    used,
                    i,
                )
            &&& r@[0].range_start == 0
            &&& r@[used - 1].range_end_exclusive == transfer.file_size_bytes
            &&& forall|i: int|
                0 <= i < used ==> {
                    &&& (#[trigger] r@[i]).transfer_id == transfer.transfer_id
                    &&& r@[i].lane_index == i
                    &&& r@[i].total_lanes == r@.len()
                    &&& r@[i].source == *source
                    &&& r@[i].io_chunk_bytes == io_chunk_bytes
                    &&& i > 0 ==> r@[i].range_start == r@[i - 1].range_end_exclusive
                }
        }),
{
    let used: u32 = normalized_lane_count(lanes, transfer.file_size_bytes);
    let cuts = split_ranges(transfer.file_size_bytes, used);
    let mut plan: Vec<LaneConfig> = Vec::new();
    for lane_index in 0..used
        invariant
            cuts@ == ranges::lane_ranges(transfer.file_size_bytes as nat, used as nat),
            cuts@.len() == used,
            plan@.len() == lane_index,
            forall|i: int|
                0 <= i < lane_index ==> #[trigger] plan@[i] == lane_config(
                    *transfer,
                    *source,
                    io_chunk_bytes,
                    used,
                    i,
                ),
            ranges::is_partition(cuts@, transfer.file_size_bytes, used),
    {
        let (range_start, range_end_exclusive) = cuts[lane_index as usize];
        plan.push(
            LaneConfig {
                transfer_id: transfer.transfer_id,
                file_size_bytes: transfer.file_size_bytes,
                file_name: transfer.file_name.clone(),
                resume_chunk_size_bytes: transfer.resume_chunk_size_bytes,
                source: source.clone(),
                io_chunk_bytes,
                lane_index,
                total_lanes: used,
                range_start,
                range_end_exclusive,
            },
        );
    }
    plan
}

/// The frame that opens the stream of a lane.
pub fn open_frame(lane: &LaneConfig) -> (r: QuicTransferOpen)
    ensures
        r.payload_codec@ == APP_PAYLOAD_CODEC_DEFAULT@,
        r == (QuicTransferOpen {
            transfer_id: lane.transfer_id,
            file_size_bytes: lane.file_size_bytes,
            file_name: lane.file_name,
            resume_chunk_size_bytes: lane.resume_chunk_size_bytes,
            lane_index: lane.lane_index,
            total_lanes: lane.total_lanes,
            range_start: lane.range_start,
            range_end_exclusive: lane.range_end_exclusive,
            payload_codec: r.payload_codec,
            receive_write_pipeline_depth: APP_RECEIVE_WRITE_PIPELINE_DEPTH_DEFAULT,
        }),
{
    QuicTransferOpen {
        transfer_id: lane.transfer_id,
        file_size_bytes: lane.file_size_bytes,
        file_name: lane.file_name.clone(),
        resume_chunk_size_bytes: lane.resume_chunk_size_bytes,
        lane_index: lane.lane_index,
        total_lanes: lane.total_lanes,
        range_start: lane.range_start,
        range_end_exclusive: lane.range_end_exclusive,
        payload_codec: APP_PAYLOAD_CODEC_DEFAULT.to_owned(),
        receive_write_pipeline_depth: APP_RECEIVE_WRITE_PIPELINE_DEPTH_DEFAULT,
    }
}

/// What a lane has still to stream, and what the server had of it already.
#[derive(Debug, Clone, Copy, PartialEq, Eq, Structural)]
pub struct ResumePoint {
    pub resume_offset: u64,
    pub resumed_from_bytes: u64,
    pub remaining_bytes: u64,
}

/// Whether an answer lets the lane be sent.
pub open spec fn open_ack_fault(lane: LaneConfig, ack: QuicTransferOpenAck) -> Option<SendFault> {
    if !ack.ok {
        Some(SendFault::Rejected { lane_index: lane.lane_index, reason: ack.message })
    } else if ack.resume_offset_bytes < lane.range_start || ack.resume_offset_bytes
        > lane.range_end_exclusive {
        Some(
            SendFault::InvalidResume {
                resume_offset: ack.resume_offset_bytes,
                lane_index: lane.lane_index,
                range_start: lane.range_start,
                range_end: lane.range_end_exclusive,
            },
        )
    } else {
        None
    }
}

/// Reads the server's answer to the opening of a lane. What the server has and what is still to be
/// streamed make up the range of the lane.
pub fn accept_open_ack(lane: &LaneConfig, ack: &QuicTransferOpenAck) -> (r: Result<
    ResumePoint,
    SendFault,
>)
    ensures
        match r {
            Ok(point) => {
                &&& open_ack_fault(*lane, *ack) is None
                &&& ack.ok
                &&& point.resume_offset == ack.resume_offset_bytes
                &&& lane.range_start + point.resumed_from_bytes == point.resume_offset
                &&& point.resume_offset + point.remaining_bytes == lane.range_end_exclusive
            },
            Err(fault) => {
                &&& open_ack_fault(*lane, *ack) == Some(fault)
                &&& !ack.ok || ack.resume_offset_bytes < lane.range_start
                    || ack.resume_offset_bytes > lane.range_end_exclusive
            },
        },
{
    if !ack.ok {
        return Err(
            SendFault::Rejected { lane_index: lane.lane_index, reason: ack.message.clone() },
        );
    }
    if ack.resume_offset_bytes < lane.range_start || ack.resume_offset_bytes
        > lane.range_end_exclusive {
        return Err(
            SendFault::InvalidResume {
                resume_offset: ack.resume_offset_bytes,
                lane_index: lane.lane_index,
                range_start: lane.range_start,
                range_end: lane.range_end_exclusive,
            },
        );
    }
    Ok(
        ResumePoint {
            resume_offset: ack.resume_offset_bytes,
            resumed_from_bytes: ack.resume_offset_bytes - lane.range_start,
            remaining_bytes: lane.range_end_exclusive - ack.resume_offset_bytes,
        },
    )
}

/// How many bytes are put into one frame at most: as many as are read at a time, but at least one and
/// no more than a frame holds.
pub open spec fn frame_chunk_len(io_chunk_bytes: usize) -> usize {
    if io_chunk_bytes == 0 {
        1
    } else if io_chunk_bytes > APP_PAYLOAD_MAX_PLAINTEXT_BYTES {
        APP_PAYLOAD_MAX_PLAINTEXT_BYTES
    } else {
        io_chunk_bytes
    }
}

pub fn chunk_len(io_chunk_bytes: usize) -> (r: usize)
    ensures
        r == frame_chunk_len(io_chunk_bytes),
        codec::framable(r as nat),
{
    if io_chunk_bytes == 0 {
        1
    } else if io_chunk_bytes > APP_PAYLOAD_MAX_PLAINTEXT_BYTES {
        APP_PAYLOAD_MAX_PLAINTEXT_BYTES
    } else {
        io_chunk_bytes
    }
}

/// Turns the chunks of one lane into frames.
pub struct FrameEncoder {
    transfer_id: u128,
    lane_index: u32,
    payload_codec: PayloadCodec,
    aead_codec: Option<AeadLaneCodec>,
}

impl FrameEncoder {
    pub closed spec fn transfer_id(&self) -> u128 {
        self.transfer_id
    }

    pub closed spec fn lane_index(&self) -> u32 {
        self.lane_index
    }

    pub closed spec fn payload_codec(&self) -> PayloadCodec {
        self.payload_codec
    }

    /// The lane whose key the encoder holds.
    pub open spec fn lane(&self) -> Option<(u128, u32)> {
        receive::keyed_lane(self.payload_codec(), self.transfer_id(), self.lane_index())
    }

    #[verifier::type_invariant]
    spec fn keyed(&self) -> bool {
        match self.aead_codec {
            Some(codec) => {
                &&& self.payload_codec == PayloadCodec::AeadV1
                &&& codec.transfer_id() == self.transfer_id
                &&& codec.lane_index() == self.lane_index
            },
            None => self.payload_codec == PayloadCodec::RawV1,
        }
    }

    /// The encoder of a lane for the codec that the server's answer names; none where no codec has
    /// that name.
    pub fn negotiated(lane: &LaneConfig, ack: &QuicTransferOpenAck) -> (r: Option<Self>)
        ensures
            match r {
                Some(encoder) => {
                    &&& PayloadCodec::named(ack.payload_codec@) == Some(encoder.payload_codec())
                    &&& encoder.transfer_id() == lane.transfer_id
                    &&& encoder.lane_index() == lane.lane_index
                },
                None => PayloadCodec::named(ack.payload_codec@) is None,
            },
    {
        let payload_codec = match PayloadCodec::from_wire(ack.payload_codec.as_str()) {
            Some(payload_codec) => payload_codec,
            None => {
                return None;
            },
        };
        let aead_codec = match payload_codec {
            PayloadCodec::RawV1 => None,
            PayloadCodec::AeadV1 => Some(AeadLaneCodec::new(lane.transfer_id, lane.lane_index)),
        };
        Some(
            FrameEncoder {
                transfer_id: lane.transfer_id,
                lane_index: lane.lane_index,
                payload_codec,
                aead_codec,
            },
        )
    }

    /// The frame of a chunk. A receiver of the same lane and codec takes it back to the chunk.
    pub fn encode(&self, chunk: &[u8], nonce: [u8; 12]) -> (r: Result<Vec<u8>, String>)
        requires
            self.payload_codec() == PayloadCodec::AeadV1 ==> codec::aead_len_supported(
                chunk@.len(),
            ),
        ensures
            r is Ok <==> codec::framable(chunk@.len()),
            match r {
                Ok(frame) => {
                    &&& codec::payload_frame(
                        self.payload_codec(),
                        chunk@,
                        nonce@,
                        self.lane(),
                    ) == Ok::<Seq<u8>, Seq<char>>(frame@)
                    &&& receive::frames_chunk(self.payload_codec(), self.lane(), frame@, chunk@)
                },
                Err(message) => codec::payload_frame(
                    self.payload_codec(),
                    chunk@,
                    nonce@,
                    self.lane(),
                ) == Err::<Seq<u8>, Seq<char>>(message@),
            },
    {
        proof {
            use_type_invariant(self);
        }
        let aead_codec = match &self.aead_codec {
            Some(lane_codec) => Some(lane_codec),
            None => None,
        };
        encode_payload_frame(self.payload_codec, chunk, nonce, aead_codec)
    }
}

/// Counts the bytes of a lane that are still to be read or made.
#[derive(Debug, Clone, Copy, PartialEq, Eq, Structural)]
pub struct LaneReader {
    pub lane_index: u32,
    pub remaining: u64,
}

impl LaneReader {
    pub fn new(lane_index: u32, total_bytes: u64) -> (r: Self)
        ensures
            r == (LaneReader { lane_index, remaining: total_bytes }),
    {
        LaneReader { lane_index, remaining: total_bytes }
    }

    /// Whether more is to be read.
    pub fn wants_chunk(&self) -> (r: bool)
        ensures
            r == (self.remaining > 0),
    {
        self.remaining > 0
    }

    /// How much of a buffer of this length is to be filled next.
    pub fn next_len(&self, buffer_len: usize) -> (r: usize)
        ensures
            r <= buffer_len,
            r <= self.remaining,
            r == buffer_len || r == self.remaining,
    {
        if self.remaining < buffer_len as u64 {
            self.remaining as usize
        } else {
            buffer_len
        }
    }

    /// So many bytes came. None at all means that the source ended early.
    pub fn chunk_read(&mut self, bytes_read: usize) -> (r: Result<(), SendFault>)
        requires
            bytes_read <= old(self).remaining,
        ensures
            final(self).lane_index == old(self).lane_index,
            match r {
                Ok(()) => bytes_read > 0 && final(self).remaining == old(self).remaining
                    - bytes_read,
                Err(fault) => {
                    &&& bytes_read == 0
                    &&& fault == (SendFault::UnexpectedEnd {
                        lane_index: old(self).lane_index,
                        remaining: old(self).remaining,
                    })
                    &&& *final(self) == *old(self)
                },
            },
    {
        if bytes_read == 0 {
            return Err(
                SendFault::UnexpectedEnd {
                    lane_index: self.lane_index,
                    remaining: self.remaining,
                },
            );
        }
        self.remaining = self.remaining - bytes_read as u64;
        Ok(())
    }
}

/// Counts the bytes of a lane that went out.
#[derive(Debug, Clone, Copy, PartialEq, Eq, Structural)]
pub struct LaneWriter {
    pub lane_index: u32,
    pub total_bytes: u64,
    pub bytes_streamed: u64,
}

impl LaneWriter {
    pub fn new(lane_index: u32, total_bytes: u64) -> (r: Self)
        ensures
            r == (LaneWriter { lane_index, total_bytes, bytes_streamed: 0 }),
    {
        LaneWriter { lane_index, total_bytes, bytes_streamed: 0 }
    }

    /// Whether more is to go out.
    pub fn wants_chunk(&self) -> (r: bool)
        ensures
            r == (self.bytes_streamed < self.total_bytes),
    {
        self.bytes_streamed < self.total_bytes
    }

    /// So many bytes went out.
    pub fn chunk_sent(&mut self, bytes: usize)
        requires
            old(self).bytes_streamed + bytes <= u64::MAX,
        ensures
            *final(self) == (LaneWriter {
                bytes_streamed: (old(self).bytes_streamed + bytes) as u64,
                ..*old(self)
            }),
    {
        self.bytes_streamed = self.bytes_streamed + bytes as u64;
    }

    /// The number of bytes that went out, where it is what was to go out.
    pub fn finish(&self) -> (r: Result<u64, SendFault>)
        ensures
            match r {
                Ok(bytes) => bytes == self.total_bytes && bytes == self.bytes_streamed,
                Err(fault) => {
                    &&& self.bytes_streamed != self.total_bytes
                    &&& fault == (SendFault::StreamedMismatch {
                        lane_index: self.lane_index,
                        streamed: self.bytes_streamed,
                        expected: self.total_bytes,
                    })
                },
            },
    {
        if self.bytes_streamed != self.total_bytes {
            return Err(
                SendFault::StreamedMismatch {
                    lane_index: self.lane_index,
                    streamed: self.bytes_streamed,
                    expected: self.total_bytes,
                },
            );
        }
        Ok(self.bytes_streamed)
    }
}

/// What came of one lane.
#[derive(Debug)]
pub struct LaneTransferResult {
    pub bytes_streamed: u64,
    pub resumed_from_bytes: u64,
    pub complete_ack: QuicTransferCompleteAck,
}

/// What came of the lanes of a transfer so far: the sums, and the answer that reports most bytes, the
/// first of several that report as many.
#[derive(Debug)]
pub struct LaneTotals {
    pub bytes_streamed: u64,
    pub resumed_from_bytes: u64,
    pub best_ack: Option<QuicTransferCompleteAck>,
}

/// The position of the first answer that reports most bytes.
pub open spec fn best_answer(results: Seq<LaneTransferResult>) -> Option<int>
    decreases results.len(),
{
    if results.len() == 0 {
        None
    } else {
        match best_answer(results.drop_last()) {
            None => Some(results.len() - 1),
            Some(i) => if results.last().complete_ack.bytes_received
                > results[i].complete_ack.bytes_received {
                Some(results.len() - 1)
            } else {
                Some(i)
            },
        }
    }
}

/// The bytes that all lanes streamed.
pub open spec fn streamed_sum(results: Seq<LaneTransferResult>) -> nat
    decreases results.len(),
{
    if results.len() == 0 {
        0
    } else {
        streamed_sum(results.drop_last()) + results.last().bytes_streamed as nat
    }
}

/// The bytes that all lanes found on the server.
pub open spec fn resumed_sum(results: Seq<LaneTransferResult>) -> nat
    decreases results.len(),
{
    if results.len() == 0 {
        0
    } else {
        resumed_sum(results.drop_last()) + results.last().resumed_from_bytes as nat
    }
}

impl LaneTotals {
    /// Whether these are the totals of these lanes.
    pub open spec fn sums_up(self, results: Seq<LaneTransferResult>) -> bool {
        &&& self.bytes_streamed == streamed_sum(results)
        &&& self.resumed_from_bytes == resumed_sum(results)
        &&& match best_answer(results) {
            Some(i) => self.best_ack == Some(results[i].complete_ack),
            None => self.best_ack is None,
        }
    }

    pub fn new() -> (r: Self)
        ensures
            r.sums_up(Seq::empty()),
    {
        LaneTotals { bytes_streamed: 0, resumed_from_bytes: 0, best_ack: None }
    }

    /// Adds what came of one more lane.
    pub fn add_lane(&mut self, result: LaneTransferResult)
        requires
            old(self).bytes_streamed + result.bytes_streamed <= u64::MAX,
            old(self).resumed_from_bytes + result.resumed_from_bytes <= u64::MAX,
        ensures
            final(self).bytes_streamed == old(self).bytes_streamed + result.bytes_streamed,
            final(self).resumed_from_bytes == old(self).resumed_from_bytes
                + result.resumed_from_bytes,
            final(self).best_ack == (match old(self).best_ack {
                Some(best) if result.complete_ack.bytes_received <= best.bytes_received => Some(
                    best,
                ),
                _ => Some(result.complete_ack),
            }),
            forall|results: Seq<LaneTransferResult>|
                #![trigger results.push(result)]
                old(self).sums_up(results) ==> final(self).sums_up(results.push(result)),
    {
        self.bytes_streamed = self.bytes_streamed + result.bytes_streamed;
        self.resumed_from_bytes = self.resumed_from_bytes + result.resumed_from_bytes;
        let replace = match &self.best_ack {
            Some(best) => result.complete_ack.bytes_received > best.bytes_received,
            None => true,
        };
        let ghost lane = result;
        if replace {
            self.best_ack = Some(result.complete_ack);
        }
        proof {
            assert forall|results: Seq<LaneTransferResult>|
                #![trigger results.push(lane)]
                old(self).sums_up(results) implies self.sums_up(results.push(lane)) by {
                assert(results.push(lane).drop_last() =~= results);
                best_answer_is_in_bounds(results);
            }
        }
    }

    /// The totals, where at least one lane was answered.
    pub fn finish(self) -> (r: Result<(u64, u64, QuicTransferCompleteAck), SendFault>)
        ensures
            match r {
                Ok((streamed, resumed, ack)) => {
                    &&& streamed == self.bytes_streamed
                    &&& resumed == self.resumed_from_bytes
                    &&& self.best_ack == Some(ack)
                },
                Err(fault) => self.best_ack is None && fault == SendFault::NoCompletion,
            },
    {
        match self.best_ack {
            Some(ack) => Ok((self.bytes_streamed, self.resumed_from_bytes, ack)),
            None => Err(SendFault::NoCompletion),
        }
    }
}

/// The best answer is one of the answers, and no answer reports more bytes.
pub proof fn best_answer_is_in_bounds(results: Seq<LaneTransferResult>)
    ensures
        results.len() > 0 <==> best_answer(results) is Some,
        best_answer(results) matches Some(i) ==> {
            &&& 0 <= i < results.len()
            &&& forall|j: int|
                0 <= j < results.len() ==> (#[trigger] results[j]).complete_ack.bytes_received
                    <= results[i].complete_ack.bytes_received
            &&& forall|j: int|
                0 <= j < i ==> (#[trigger] results[j]).complete_ack.bytes_received
                    < results[i].complete_ack.bytes_received
        },
    decreases results.len(),
{
    if results.len() > 0 {
        let rest = results.drop_last();
        best_answer_is_in_bounds(rest);
        assert(forall|j: int| 0 <= j < rest.len() ==> #[trigger] rest[j] == results[j]);
        assert forall|j: int| 0 <= j < results.len() implies (
        #[trigger] results[j]).complete_ack.bytes_received
            <= results[best_answer(results)->0].complete_ack.bytes_received by {
            if j < rest.len() {
                assert(rest[j] == results[j]);
            }
        }
        assert forall|j: int| 0 <= j < best_answer(results)->0 implies (
        #[trigger] results[j]).complete_ack.bytes_received
            < results[best_answer(results)->0].complete_ack.bytes_received by {
            assert(rest[j] == results[j]);
        }
    }
}

/// Lanes that each streamed what the server did not have, streamed and resumed together the whole
/// file.
pub proof fn lanes_carry_the_whole_file(
    results: Seq<LaneTransferResult>,
    file_size_bytes: u64,
    lanes: u32,
)
    requires
        lanes > 0,
        results.len() == lanes,
        forall|i: int|
            0 <= i < lanes ==> (#[trigger] results[i]).bytes_streamed
                + results[i].resumed_from_bytes == ({
                let range = ranges::lane_ranges(file_size_bytes as nat, lanes as nat)[i];
                range.1 - range.0
            }),
    ensures
        streamed_sum(results) + resumed_sum(results) == file_size_bytes,
{
    lanes_carry_up_to_a_cut(results, file_size_bytes, lanes, lanes as nat);
    ranges::lane_cuts_partition(file_size_bytes as nat, lanes as nat, 0);
    assert(results.take(lanes as int) =~= results);
}

proof fn lanes_carry_up_to_a_cut(
    results: Seq<LaneTransferResult>,
    file_size_bytes: u64,
    lanes: u32,
    n: nat,
)
    requires
        lanes > 0,
        results.len() == lanes,
        n <= lanes,
        forall|i: int|
            0 <= i < lanes ==> (#[trigger] results[i]).bytes_streamed
                + results[i].resumed_from_bytes == ({
                let range = ranges::lane_ranges(file_size_bytes as nat, lanes as nat)[i];
                range.1 - range.0
            }),
    ensures
        streamed_sum(results.take(n as int)) + resumed_sum(results.take(n as int))
            == ranges::lane_cut(file_size_bytes as nat, lanes as nat, n),
    decreases n,
{
    let size = file_size_bytes as nat;
    if n == 0 {
        assert(results.take(0) =~= Seq::empty());
        ranges::lane_cuts_partition(size, lanes as nat, 0);
    } else {
        let m = (n - 1) as nat;
        lanes_carry_up_to_a_cut(results, file_size_bytes, lanes, m);
        ranges::lane_cuts_partition(size, lanes as nat, m);
        let prefix = results.take(n as int);
        assert(prefix.drop_last() =~= results.take(m as int));
        assert(prefix.last() == results[m as int]);
    }
}

/// What is reported of a transfer that was sent.
#[derive(Debug)]
pub struct SendTransferReport {
    pub transfer_id: u128,
    pub file_path: String,
    pub file_size_bytes: u64,
    pub effective_lanes: u32,
    pub lane_selection: Option<String>,
    pub resumed_from_bytes: u64,
    pub bytes_streamed_this_session: u64,
    pub total_streamed_bytes: u64,
    pub elapsed_ms: u128,
    pub average_gbps: Throughput,
    pub final_status: String,
    pub message: String,
}

/// The name of a status in a report.
pub open spec fn status_title(status: TransferStatus) -> Seq<char> {
    match status {
        TransferStatus::Queued => "Queued"@,
        TransferStatus::Running => "Running"@,
        TransferStatus::Completed => "Completed"@,
        TransferStatus::Failed => "Failed"@,
    }
}

pub fn status_name(status: TransferStatus) -> (r: String)
    ensures
        r@ == status_title(status),
        r@ == match status {
            TransferStatus::Queued => "Queued"@,
            TransferStatus::Running => "Running"@,
            TransferStatus::Completed => "Completed"@,
            TransferStatus::Failed => "Failed"@,
        },
{
    match status {
        TransferStatus::Queued => "Queued".to_owned(),
        TransferStatus::Running => "Running".to_owned(),
        TransferStatus::Completed => "Completed".to_owned(),
        TransferStatus::Failed => "Failed".to_owned(),
    }
}

/// The report on a transfer whose lanes have all ended.
pub fn transfer_report(
    transfer: &TransferSummary,
    source: &PayloadSource,
    lanes: u32,
    lane_selection: Option<String>,
    totals: LaneTotals,
    elapsed_ms: u128,
    average_gbps: Throughput,
) -> (r: Result<SendTransferReport, SendFault>)
    ensures
        match r {
            Ok(report) => totals.best_ack matches Some(ack) && {
                &&& report.final_status@ == status_title(ack.status)
                &&& report == (SendTransferReport {
                    transfer_id: transfer.transfer_id,
                    file_path: source.name(),
                    file_size_bytes: transfer.file_size_bytes,
                    effective_lanes: ranges::usable_lanes(lanes, transfer.file_size_bytes),
                    lane_selection,
                    resumed_from_bytes: totals.resumed_from_bytes,
                    bytes_streamed_this_session: totals.bytes_streamed,
                    total_streamed_bytes: ack.bytes_received,
                    elapsed_ms,
                    average_gbps,
                    final_status: report.final_status,
                    message: ack.message,
                })
            },
            Err(fault) => totals.best_ack is None && fault == SendFault::NoCompletion,
        },
{
    let (bytes_streamed_this_session, resumed_from_bytes, ack) = match totals.finish() {
        Ok(finished) => finished,
        Err(fault) => {
            return Err(fault);
        },
    };
    Ok(
        SendTransferReport {
            transfer_id: transfer.transfer_id,
            file_path: source.label(),
            file_size_bytes: transfer.file_size_bytes,
            effective_lanes: normalized_lane_count(lanes, transfer.file_size_bytes),
            lane_selection,
            resumed_from_bytes,
            bytes_streamed_this_session,
            total_streamed_bytes: ack.bytes_received,
            elapsed_ms,
            average_gbps,
            final_status: status_name(ack.status),
            message: ack.message,
        },
    )
}

/// A lane is sent exactly where the server accepts it and lets it resume in its range. A refusal comes
/// before a bad offset, with the reason that the server gives.
pub proof fn lanes_are_sent_where_they_are_accepted(lane: LaneConfig, ack: QuicTransferOpenAck)
    ensures
        open_ack_fault(lane, ack) is None <==> ack.ok && lane.range_start
            <= ack.resume_offset_bytes <= lane.range_end_exclusive,
        !ack.ok ==> open_ack_fault(lane, ack) == Some(
            SendFault::Rejected { lane_index: lane.lane_index, reason: ack.message },
        ),
        (open_ack_fault(lane, ack) is Some && open_ack_fault(lane, ack)->0 is InvalidResume)
            <==> ack.ok && !(lane.range_start <= ack.resume_offset_bytes
            <= lane.range_end_exclusive),
{
}

/// Chunks are as long as what is read at a time where a frame can hold that, and else of the nearest
/// length that one can hold.
pub proof fn chunks_are_the_nearest_that_fit(io_chunk_bytes: usize, other: usize)
    requires
        1 <= other <= 64 * 1024 * 1024,
    ensures
        1 <= frame_chunk_len(io_chunk_bytes) <= 64 * 1024 * 1024,
        vstd::math::abs(frame_chunk_len(io_chunk_bytes) - io_chunk_bytes) <= vstd::math::abs(
            other - io_chunk_bytes,
        ),
{
}

/// The lanes of a transfer are lanes of that transfer: each says what the transfer says, and is one of
/// so many. They follow one another through the file.
pub proof fn planned_lanes_belong_to_their_transfer(
    transfer: TransferSummary,
    source: PayloadSource,
    io_chunk_bytes: usize,
    lanes: u32,
    i: int,
)
    requires
        0 <= i < lanes,
    ensures
        ({
            let lane = lane_config(transfer, source, io_chunk_bytes, lanes, i);
            &&& lane.transfer_id == transfer.transfer_id
            &&& lane.file_size_bytes == transfer.file_size_bytes
            &&& lane.file_name == transfer.file_name
            &&& lane.resume_chunk_size_bytes == transfer.resume_chunk_size_bytes
            &&& lane.source == source
            &&& lane.io_chunk_bytes == io_chunk_bytes
            &&& lane.lane_index == i
            &&& lane.total_lanes == lanes
            &&& i == 0 ==> lane.range_start == 0
            &&& i == lanes - 1 ==> lane.range_end_exclusive == transfer.file_size_bytes
            &&& i > 0 ==> lane.range_start == lane_config(
                transfer,
                source,
                io_chunk_bytes,
                lanes,
                i - 1,
            ).range_end_exclusive
        }),
{
    ranges::lane_ranges_partition_the_file(transfer.file_size_bytes, lanes);
    let cuts = ranges::lane_ranges(transfer.file_size_bytes as nat, lanes as nat);
    if i > 0 {
        assert(cuts[i].0 == cuts[i - 1].1);
    }
}

/// The bytes that lanes streamed, and those that they found on the server, add up lane by lane.
pub proof fn lane_totals_add_up(
    some: Seq<LaneTransferResult>,
    others: Seq<LaneTransferResult>,
    lane: LaneTransferResult,
)
    ensures
        streamed_sum(Seq::empty()) == 0,
        resumed_sum(Seq::empty()) == 0,
        streamed_sum(seq![lane]) == lane.bytes_streamed,
        resumed_sum(seq![lane]) == lane.resumed_from_bytes,
        streamed_sum(some + others) == streamed_sum(some) + streamed_sum(others),
        resumed_sum(some + others) == resumed_sum(some) + resumed_sum(others),
    decreases others.len(),
{
    reveal_with_fuel(streamed_sum, 2);
    reveal_with_fuel(resumed_sum, 2);
    if others.len() == 0 {
        assert(some + others =~= some);
    } else {
        lane_totals_add_up(some, others.drop_last(), lane);
        assert((some + others).drop_last() =~= some + others.drop_last());
    }
}

/// The totals of lanes are their sums, and their answer is one that reports most bytes, the first of
/// several. There is none exactly where there are no lanes.
pub proof fn totals_report_the_fullest_answer(totals: LaneTotals, results: Seq<LaneTransferResult>)
    requires
        totals.sums_up(results),
    ensures
        totals.bytes_streamed == streamed_sum(results),
        totals.resumed_from_bytes == resumed_sum(results),
        totals.best_ack is None <==> results.len() == 0,
        totals.best_ack matches Some(ack) ==> exists|i: int|
            #![trigger results[i]]
            {
                &&& 0 <= i < results.len()
                &&& results[i].complete_ack == ack
                &&& forall|j: int|
                    0 <= j < results.len() ==> (#[trigger] results[j]).complete_ack.bytes_received
                        <= ack.bytes_received
                &&& forall|j: int|
                    0 <= j < i ==> (#[trigger] results[j]).complete_ack.bytes_received
                        < ack.bytes_received
            },
{
    best_answer_is_in_bounds(results);
}

} // verus!
