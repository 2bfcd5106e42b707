//! Receiving the payload of a lane: reading frames, counting bytes, and recording progress.

use crate::codec;
use crate::codec::{
    app_payload_wire_len, decode_payload_frame, decode_payload_frame_header, AeadLaneCodec,
    PayloadCodec, APP_PAYLOAD_FRAME_HEADER_BYTES,
};
use crate::ids;
use crate::ids::uuid_display;
use crate::messages::{Timestamp, RESUME_CHUNK_SIZE_BYTES};
use crate::state::AppState;
use crate::text;
use crate::text::{push_decimal, with_number};
use vstd::prelude::*;
use vstd::string::*;

verus! {

/// After how many written bytes the progress of a lane is recorded.
pub const PROGRESS_UPDATE_INTERVAL_BYTES: u64 = RESUME_CHUNK_SIZE_BYTES;

/// Why the payload of a lane is refused. The `reason` of a bad frame is what the codec says of it.
#[derive(Debug)]
pub enum ReceiveFault {
    InvalidHeader { transfer_id: u128, lane_index: u32, reason: String },
    Undecodable { transfer_id: u128, lane_index: u32, reason: String },
    Overflow { transfer_id: u128, lane_index: u32 },
    Incomplete { transfer_id: u128, lane_index: u32, got: u64, expected: u64 },
    WriterMismatch { lane_index: u32, written: u64, received: u64 },
}

/// The words for a transfer and its lane.
pub open spec fn lane_words(transfer_id: u128, lane_index: u32) -> Seq<char> {
    "transfer "@ + ids::id_text(transfer_id) + " lane "@ + text::decimal(lane_index as nat)
}

fn push_lane_words(out: &mut String, transfer_id: u128, lane_index: u32)
    ensures
        final(out)@ == old(out)@ + lane_words(transfer_id, lane_index),
{
    out.append("transfer ");
    out.append(uuid_display(transfer_id).as_str());
    out.append(" lane ");
    push_decimal(out, lane_index as u64);
    assert(out@ =~= old(out)@ + lane_words(transfer_id, lane_index));
}

impl ReceiveFault {
    /// The fault in words.
    pub open spec fn text(self) -> Seq<char> {
        match self {
            ReceiveFault::InvalidHeader { transfer_id, lane_index, .. } =>
                "invalid payload frame header for "@ + lane_words(transfer_id, lane_index),
            ReceiveFault::Undecodable { transfer_id, lane_index, .. } =>
                "failed decoding payload frame for "@ + lane_words(transfer_id, lane_index),
            ReceiveFault::Overflow { transfer_id, lane_index } =>
                "received lane payload overflow for "@ + lane_words(transfer_id, lane_index),
            ReceiveFault::Incomplete { transfer_id, lane_index, got, expected } =>
                "incomplete lane stream for "@ + lane_words(transfer_id, lane_index) + ": got "@
                    + text::decimal(got as nat) + " expected "@ + text::decimal(expected as nat),
            ReceiveFault::WriterMismatch { lane_index, written, received } => "lane "@
                + text::decimal(lane_index as nat) + " writer mismatch: written "@ + text::decimal(
                written as nat,
            ) + " != received "@ + text::decimal(received as nat),
        }
    }

    pub fn message(&self) -> (r: String)
        ensures
            r@ == self.text(),
    {
        match self {
            ReceiveFault::InvalidHeader { transfer_id, lane_index, .. } => {
                let mut message = "invalid payload frame header for ".to_owned();
                push_lane_words(&mut message, *transfer_id, *lane_index);
                message
            },
            ReceiveFault::Undecodable { transfer_id, lane_index, .. } => {
                let mut message = "failed decoding payload frame for ".to_owned();
                push_lane_words(&mut message, *transfer_id, *lane_index);
                message
            },
            ReceiveFault::Overflow { transfer_id, lane_index } => {
                let mut message = "received lane payload overflow for ".to_owned();
                push_lane_words(&mut message, *transfer_id, *lane_index);
                message
            },
            ReceiveFault::Incomplete { transfer_id, lane_index, got, expected } => {
                let mut message = "incomplete lane stream for ".to_owned();
                push_lane_words(&mut message, *transfer_id, *lane_index);
                message.append(": got ");
                push_decimal(&mut message, *got);
                message.append(" expected ");
                push_decimal(&mut message, *expected);
                message
            },
            ReceiveFault::WriterMismatch { lane_index, written, received } => {
                let mut message = with_number("lane ", *lane_index as u64);
                message.append(" writer mismatch: written ");
                push_decimal(&mut message, *written);
                message.append(" != received ");
                push_decimal(&mut message, *received);
                message
            },
        }
    }
}

/// What a frame header announces.
#[derive(Debug, Clone, Copy)]
pub struct FrameHeader {
    pub plaintext_len: usize,
    pub nonce: [u8; 12],
    pub wire_len: usize,
}

/// Turns the frames of one lane back into plaintext.
pub struct FrameDecoder {
    transfer_id: u128,
    lane_index: u32,
    payload_codec: PayloadCodec,
    aead_codec: Option<AeadLaneCodec>,
}

/// The lane whose key a codec needs, if it needs one.
pub open spec fn keyed_lane(payload_codec: PayloadCodec, transfer_id: u128, lane_index: u32) -> Option<
    (u128, u32),
> {
    match payload_codec {
        PayloadCodec::RawV1 => None,
        PayloadCodec::AeadV1 => Some((transfer_id, lane_index)),
    }
}

impl FrameDecoder {
    pub closed spec fn transfer_id(&self) -> u128 {
        self.transfer_id
    }

    pub closed spec fn lane_index(&self) -> u32 {
        self.lane_index
    }

    pub closed spec fn payload_codec(&self) -> PayloadCodec {
        self.payload_codec
    }

    /// The lane whose key the decoder holds.
    pub open spec fn lane(&self) -> Option<(u128, u32)> {
        keyed_lane(self.payload_codec(), self.transfer_id(), self.lane_index())
    }

    #[verifier::type_invariant]
    spec fn keyed(&self) -> bool {
        match self.aead_codec {
            Some(codec) => {
                &&& self.payload_codec == PayloadCodec::AeadV1
                &&& codec.transfer_id() == self.transfer_id
                &&& codec.lane_index() == self.lane_index
            },
            None => self.payload_codec == PayloadCodec::RawV1,
        }
    }

    pub fn new(transfer_id: u128, lane_index: u32, payload_codec: PayloadCodec) -> (r: Self)
        ensures
            r.transfer_id() == transfer_id,
            r.lane_index() == lane_index,
            r.payload_codec() == payload_codec,
    {
        let aead_codec = match payload_codec {
            PayloadCodec::RawV1 => None,
            PayloadCodec::AeadV1 => Some(AeadLaneCodec::new(transfer_id, lane_index)),
        };
        FrameDecoder { transfer_id, lane_index, payload_codec, aead_codec }
    }

    /// Reads a frame header, and with it how many bytes of payload stand behind it.
    pub fn read_header(&self, header: [u8; APP_PAYLOAD_FRAME_HEADER_BYTES]) -> (r: Result<
        FrameHeader,
        ReceiveFault,
    >)
        ensures
            match r {
                Ok(frame) => {
                    &&& codec::parsed_frame_header(header@) == Ok::<(nat, Seq<u8>), Seq<char>>(
                        (frame.plaintext_len as nat, frame.nonce@),
                    )
                    &&& codec::framable(frame.plaintext_len as nat)
                    &&& frame.wire_len == codec::wire_len(
                        self.payload_codec(),
                        frame.plaintext_len as nat,
                    )
                },
                Err(fault) => fault matches ReceiveFault::InvalidHeader {
                    transfer_id,
                    lane_index,
                    reason,
                } && {
                    &&& transfer_id == self.transfer_id()
                    &&& lane_index == self.lane_index()
                    &&& codec::parsed_frame_header(header@) == Err::<(nat, Seq<u8>), Seq<char>>(
                        reason@,
                    )
                },
            },
    {
        let (plaintext_len, nonce) = match decode_payload_frame_header(header) {
            Ok(parsed) => parsed,
            Err(reason) => {
                return Err(
                    ReceiveFault::InvalidHeader {
                        transfer_id: self.transfer_id,
                        lane_index: self.lane_index,
                        reason,
                    },
                );
            },
        };
        match app_payload_wire_len(self.payload_codec, plaintext_len) {
            Ok(wire_len) => Ok(FrameHeader { plaintext_len, nonce, wire_len }),
            Err(reason) => Err(
                ReceiveFault::InvalidHeader {
                    transfer_id: self.transfer_id,
                    lane_index: self.lane_index,
                    reason,
                },
            ),
        }
    }

    /// Recovers the plaintext of a frame.
    pub fn decode(&self, plaintext_len: usize, nonce: [u8; 12], wire_payload: &[u8]) -> (r: Result<
        Vec<u8>,
        ReceiveFault,
    >)
        ensures
            match r {
                Ok(plaintext) => {
                    &&& codec::received_plaintext(
                        self.payload_codec(),
                        plaintext_len as nat,
                        nonce@,
                        wire_payload@,
                        self.lane(),
                    ) == Ok::<Seq<u8>, Seq<char>>(plaintext@)
                    &&& plaintext@.len() == plaintext_len
                },
                Err(fault) => fault matches ReceiveFault::Undecodable {
                    transfer_id,
                    lane_index,
                    reason,
                } && {
                    &&& transfer_id == self.transfer_id()
                    &&& lane_index == self.lane_index()
                    &&& codec::received_plaintext(
                        self.payload_codec(),
                        plaintext_len as nat,
                        nonce@,
                        wire_payload@,
                        self.lane(),
                    ) == Err::<Seq<u8>, Seq<char>>(reason@)
                },
            },
    {
        proof {
            use_type_invariant(self);
        }
        let aead_codec = match &self.aead_codec {
            Some(codec) => Some(codec),
            None => None,
        };
        match decode_payload_frame(
            self.payload_codec,
            plaintext_len,
            nonce,
            wire_payload,
            aead_codec,
        ) {
            Ok(plaintext) => Ok(plaintext),
            Err(reason) => Err(
                ReceiveFault::Undecodable {
                    transfer_id: self.transfer_id,
                    lane_index: self.lane_index,
                    reason,
                },
            ),
        }
    }
}

/// Counts the bytes that a lane has received against those that it is to receive.
#[derive(Debug, Clone, Copy, PartialEq, Eq, Structural)]
pub struct LaneReceiver {
    pub transfer_id: u128,
    pub lane_index: u32,
    pub expected_bytes: u64,
    pub bytes_received: u64,
}

impl LaneReceiver {
    /// No more was received than expected.
    pub open spec fn wf(self) -> bool {
        self.bytes_received <= self.expected_bytes
    }

    pub fn new(transfer_id: u128, lane_index: u32, expected_bytes: u64) -> (r: Self)
        ensures
            r.wf(),
            r == (LaneReceiver { transfer_id, lane_index, expected_bytes, bytes_received: 0 }),
    {
        LaneReceiver { transfer_id, lane_index, expected_bytes, bytes_received: 0 }
    }

    /// Whether another frame is to be read.
    pub fn wants_frame(&self) -> (r: bool)
        ensures
            r == (self.bytes_received < self.expected_bytes),
    {
        self.bytes_received < self.expected_bytes
    }

    /// Counts a frame of this length, or refuses it as more than the lane is to receive.
    pub fn admit_frame(&mut self, plaintext_len: usize) -> (r: Result<(), ReceiveFault>)
        requires
            old(self).wf(),
        ensures
            final(self).wf(),
            match r {
                Ok(()) => {
                    &&& old(self).bytes_received + plaintext_len <= old(self).expected_bytes
                    &&& *final(self) == (LaneReceiver {
                        bytes_received: (old(self).bytes_received + plaintext_len) as u64,
                        ..*old(self)
                    })
                },
                Err(fault) => {
                    &&& old(self).bytes_received + plaintext_len > old(self).expected_bytes
                    &&& fault == (ReceiveFault::Overflow {
                        transfer_id: old(self).transfer_id,
                        lane_index: old(self).lane_index,
                    })
                    &&& *final(self) == *old(self)
                },
            },
    {
        let remaining: u64 = self.expected_bytes - self.bytes_received;
        if plaintext_len as u64 > remaining {
            return Err(
                ReceiveFault::Overflow {
                    transfer_id: self.transfer_id,
                    lane_index: self.lane_index,
                },
            );
        }
        self.bytes_received = self.bytes_received + plaintext_len as u64;
        Ok(())
    }

    /// The number of received bytes, where all of them came.
    pub fn finish(&self) -> (r: Result<u64, ReceiveFault>)
        ensures
            match r {
                Ok(bytes) => bytes == self.bytes_received && bytes == self.expected_bytes,
                Err(fault) => {
                    &&& self.bytes_received != self.expected_bytes
                    &&& fault == (ReceiveFault::Incomplete {
                        transfer_id: self.transfer_id,
                        lane_index: self.lane_index,
                        got: self.bytes_received,
                        expected: self.expected_bytes,
                    })
                },
            },
    {
        if self.bytes_received != self.expected_bytes {
            return Err(
                ReceiveFault::Incomplete {
                    transfer_id: self.transfer_id,
                    lane_index: self.lane_index,
                    got: self.bytes_received,
                    expected: self.expected_bytes,
                },
            );
        }
        Ok(self.bytes_received)
    }
}

/// Why a lane whose stages ran side by side has no result: a stage failed, or the counts disagree.
#[derive(Debug)]
pub enum LaneFailure<E> {
    Stage(E),
    Fault(ReceiveFault),
}

/// The result of a lane whose frames were read, decoded and written by three stages: a failure to
/// decode comes before a failure to write, and both before a failure to read.
pub fn lane_outcome<E>(
    receiver: &LaneReceiver,
    decoding: Result<(), E>,
    writing: Result<u64, E>,
    reading: Result<(), E>,
) -> (r: Result<u64, LaneFailure<E>>)
    ensures
        match (decoding, writing, reading) {
            (Err(error), _, _) => r == Err::<u64, LaneFailure<E>>(LaneFailure::Stage(error)),
            (Ok(()), Err(error), _) => r == Err::<u64, LaneFailure<E>>(LaneFailure::Stage(error)),
            (Ok(()), Ok(_), Err(error)) => r == Err::<u64, LaneFailure<E>>(
                LaneFailure::Stage(error),
            ),
            (Ok(()), Ok(written), Ok(())) => {
                if receiver.bytes_received != receiver.expected_bytes {
                    r == Err::<u64, LaneFailure<E>>(
                        LaneFailure::Fault(
                            ReceiveFault::Incomplete {
                                transfer_id: receiver.transfer_id,
                                lane_index: receiver.lane_index,
                                got: receiver.bytes_received,
                                expected: receiver.expected_bytes,
                            },
                        ),
                    )
                } else if written != receiver.bytes_received {
                    r == Err::<u64, LaneFailure<E>>(
                        LaneFailure::Fault(
                            ReceiveFault::WriterMismatch {
                                lane_index: receiver.lane_index,
                                written,
                                received: receiver.bytes_received,
                            },
                        ),
                    )
                } else {
                    r == Ok::<u64, LaneFailure<E>>(receiver.expected_bytes)
                }
            },
        },
{
    match decoding {
        Ok(()) => {},
        Err(error) => {
            return Err(LaneFailure::Stage(error));
        },
    }
    let written: u64 = match writing {
        Ok(written) => written,
        Err(error) => {
            return Err(LaneFailure::Stage(error));
        },
    };
    match reading {
        Ok(()) => {},
        Err(error) => {
            return Err(LaneFailure::Stage(error));
        },
    }
    let received: u64 = match receiver.finish() {
        Ok(received) => received,
        Err(fault) => {
            return Err(LaneFailure::Fault(fault));
        },
    };
    if written != received {
        return Err(
            LaneFailure::Fault(
                ReceiveFault::WriterMismatch {
                    lane_index: receiver.lane_index,
                    written,
                    received,
                },
            ),
        );
    }
    Ok(written)
}

/// Decides when the progress of a lane is made durable: each time at least one interval was written
/// since the last time, and at the end.
#[derive(Debug, Clone, Copy, PartialEq, Eq, Structural)]
pub struct WriterProgress {
    pub resume_offset: u64,
    pub bytes_written: u64,
    pub since_update: u64,
    pub last_durable_offset: u64,
}

impl WriterProgress {
    /// The durable offset lags behind the written one by what was written since, which is less than
    /// an interval.
    pub open spec fn wf(self) -> bool {
        &&& self.resume_offset + self.bytes_written <= u64::MAX
        &&& self.last_durable_offset + self.since_update == self.resume_offset + self.bytes_written
        &&& self.since_update <= self.bytes_written
        &&& self.since_update < PROGRESS_UPDATE_INTERVAL_BYTES
    }

    /// The offset up to which the lane was written.
    pub open spec fn written_offset(self) -> int {
        self.resume_offset + self.bytes_written
    }

    pub fn new(resume_offset: u64) -> (r: Self)
        ensures
            r.wf(),
            r == (WriterProgress {
                resume_offset,
                bytes_written: 0,
                since_update: 0,
                last_durable_offset: resume_offset,
            }),
    {
        WriterProgress {
            resume_offset,
            bytes_written: 0,
            since_update: 0,
            last_durable_offset: resume_offset,
        }
    }

    /// A chunk was written. Gives the offset to be made durable and recorded, if it is time.
    pub fn chunk_written(&mut self, len: u64) -> (r: Option<u64>)
        requires
            old(self).wf(),
            old(self).written_offset() + len <= u64::MAX,
        ensures
            final(self).wf(),
            final(self).resume_offset == old(self).resume_offset,
            final(self).bytes_written == old(self).bytes_written + len,
            r is Some <==> old(self).since_update + len >= PROGRESS_UPDATE_INTERVAL_BYTES,
            match r {
                Some(offset) => {
                    &&& offset == final(self).written_offset()
                    &&& final(self).last_durable_offset == offset
                    &&& offset > old(self).last_durable_offset
                },
                None => final(self).last_durable_offset == old(self).last_durable_offset,
            },
    {
        self.bytes_written = self.bytes_written + len;
        self.since_update = self.since_update + len;
        if self.since_update >= PROGRESS_UPDATE_INTERVAL_BYTES {
            self.last_durable_offset = self.resume_offset + self.bytes_written;
            self.since_update = 0;
            Some(self.last_durable_offset)
        } else {
            None
        }
    }

    /// The lane has ended. Gives the offset to be made durable and recorded, if it is not yet.
    pub fn lane_ended(&self) -> (r: Option<u64>)
        requires
            self.wf(),
        ensures
            match r {
                Some(offset) => offset == self.written_offset() && offset
                    > self.last_durable_offset,
                None => self.last_durable_offset == self.written_offset(),
            },
    {
        let final_offset: u64 = self.resume_offset + self.bytes_written;
        if final_offset > self.last_durable_offset {
            Some(final_offset)
        } else {
            None
        }
    }
}

/// What is to be done next to record how far a lane has come.
#[derive(Debug, Clone, Copy, PartialEq, Eq, Structural)]
pub enum ProgressStep {
    /// Advance the lane in the checkpoint to this offset, and say how many bytes all lanes have
    /// carried then.
    AdvanceLane { offset: u64 },
    /// The progress of the transfer is recorded.
    Recorded,
}

/// Records that a lane was written up to `new_offset`. A striped transfer has as many bytes as its
/// checkpoint counts, which is asked for first; any other has what its one stream was written up to.
pub fn persist_progress<L>(
    state: &mut AppState<L>,
    transfer_id: u128,
    striped: bool,
    new_offset: u64,
    checkpoint_total: Option<u64>,
    now: Timestamp,
) -> (r: ProgressStep)
    requires
        old(state).wf(),
    ensures
        final(state).wf(),
        match (striped, checkpoint_total) {
            (true, None) => {
                &&& r == ProgressStep::AdvanceLane { offset: new_offset }
                &&& final(state)@ == old(state)@
            },
            (true, Some(total)) => {
                &&& r == ProgressStep::Recorded
                &&& final(state)@ == old(state)@.with_progress(transfer_id, total, now)
            },
            (false, _) => {
                &&& r == ProgressStep::Recorded
                &&& final(state)@ == old(state)@.with_progress(transfer_id, new_offset, now)
            },
        },
{
    let bytes: u64 = if striped {
        match checkpoint_total {
            Some(total) => total,
            None => {
                return ProgressStep::AdvanceLane { offset: new_offset };
            },
        }
    } else {
        new_offset
    };
    state.record_progress(transfer_id, bytes, now);
    ProgressStep::Recorded
}

/// What the frames in a byte stream of a lane stand for, when `expected` bytes of plaintext are to
/// come: `None` where a frame is cut short, refused, or more than is expected.
pub open spec fn lane_payload(
    payload_codec: PayloadCodec,
    lane: Option<(u128, u32)>,
    wire: Seq<u8>,
    expected: nat,
) -> Option<Seq<u8>>
    decreases expected,
{
    if expected == 0 {
        Some(Seq::empty())
    } else if wire.len() < APP_PAYLOAD_FRAME_HEADER_BYTES {
        None
    } else {
        match codec::parsed_frame_header(wire.subrange(0, 16)) {
            Err(_) => None,
            Ok((plaintext_len, nonce)) => {
                let end = 16 + codec::wire_len(payload_codec, plaintext_len);
                if wire.len() < end || plaintext_len > expected || plaintext_len == 0 {
                    None
                } else {
                    match codec::received_plaintext(
                        payload_codec,
                        plaintext_len,
                        nonce,
                        wire.subrange(16, end as int),
                        lane,
                    ) {
                        Err(_) => None,
                        Ok(plaintext) => match lane_payload(
                            payload_codec,
                            lane,
                            wire.skip(end as int),
                            (expected - plaintext_len) as nat,
                        ) {
                            None => None,
                            Some(rest) => Some(plaintext + rest),
                        },
                    }
                }
            },
        }
    }
}

/// Each step of a receiver takes one frame off what the stream of its lane stands for. Where the
/// header is read, the frame is admitted and its payload decoded, the rest of the stream stands for
/// the rest of the bytes; where any of these is refused, the stream stands for nothing.
pub proof fn receiving_takes_frames_off_the_stream(
    payload_codec: PayloadCodec,
    lane: Option<(u128, u32)>,
    header: Seq<u8>,
    wire_payload: Seq<u8>,
    rest: Seq<u8>,
    expected: nat,
)
    requires
        expected > 0,
        header.len() == APP_PAYLOAD_FRAME_HEADER_BYTES,
        codec::parsed_frame_header(header) matches Ok((plaintext_len, _)) ==> wire_payload.len()
            == codec::wire_len(payload_codec, plaintext_len),
    ensures
        ({
            let wire = header + wire_payload + rest;
            lane_payload(payload_codec, lane, wire, expected) == (match codec::parsed_frame_header(
                header,
            ) {
                Err(_) => None,
                Ok((plaintext_len, nonce)) => if plaintext_len > expected {
                    None
                } else {
                    match (
                        codec::received_plaintext(
                            payload_codec,
                            plaintext_len,
                            nonce,
                            wire_payload,
                            lane,
                        ),
                        lane_payload(
                            payload_codec,
                            lane,
                            rest,
                            (expected - plaintext_len) as nat,
                        ),
                    ) {
                        (Ok(plaintext), Some(others)) => Some(plaintext + others),
                        _ => None,
                    }
                },
            })
        }),
{
    let wire = header + wire_payload + rest;
    assert(wire.subrange(0, 16) =~= header);
    if let Ok((plaintext_len, _)) = codec::parsed_frame_header(header) {
        let end = 16 + codec::wire_len(payload_codec, plaintext_len);
        assert(wire.subrange(16, end as int) =~= wire_payload);
        assert(wire.skip(end as int) =~= rest);
    }
}

/// Whether a frame stands for a chunk: this is what framing the chunk for the lane ensures.
pub open spec fn frames_chunk(
    payload_codec: PayloadCodec,
    lane: Option<(u128, u32)>,
    frame: Seq<u8>,
    chunk: Seq<u8>,
) -> bool {
    &&& codec::framable(chunk.len())
    &&& frame.len() == APP_PAYLOAD_FRAME_HEADER_BYTES + codec::wire_len(payload_codec, chunk.len())
    &&& codec::parsed_frame_header(frame.subrange(0, 16)) matches Ok((len, nonce)) && {
        &&& len == chunk.len()
        &&& codec::received_plaintext(payload_codec, len, nonce, frame.skip(16), lane) == Ok::<
            Seq<u8>,
            Seq<char>,
        >(chunk)
    }
}

/// What a sender frames chunk by chunk, a receiver of the same lane takes back to the payload, in
/// order and whole.
pub proof fn framed_payload_arrives(
    payload_codec: PayloadCodec,
    lane: Option<(u128, u32)>,
    frames: Seq<Seq<u8>>,
    chunks: Seq<Seq<u8>>,
)
    requires
        frames.len() == chunks.len(),
        forall|i: int|
            0 <= i < frames.len() ==> frames_chunk(
                payload_codec,
                lane,
                #[trigger] frames[i],
                chunks[i],
            ),
    ensures
        lane_payload(payload_codec, lane, frames.flatten(), chunks.flatten().len()) == Some(
            chunks.flatten(),
        ),
    decreases frames.len(),
{
    if frames.len() == 0 {
        assert(chunks.flatten() =~= Seq::empty());
    } else {
        let frame = frames[0];
        let chunk = chunks[0];
        let wire = frames.flatten();
        let rest = frames.drop_first();
        let payload = chunks.flatten();
        assert(frames_chunk(payload_codec, lane, frame, chunk));
        assert forall|i: int| 0 <= i < rest.len() implies frames_chunk(
            payload_codec,
            lane,
            #[trigger] rest[i],
            chunks.drop_first()[i],
        ) by {
            assert(rest[i] == frames[i + 1]);
        }
        framed_payload_arrives(payload_codec, lane, rest, chunks.drop_first());
        assert(wire =~= frame + rest.flatten());
        assert(payload =~= chunk + chunks.drop_first().flatten());
        assert(wire.subrange(0, 16) =~= frame.subrange(0, 16));
        let end = 16 + codec::wire_len(payload_codec, chunk.len());
        assert(wire.subrange(16, end as int) =~= frame.skip(16));
        assert(wire.skip(end as int) =~= rest.flatten());
    }
}

/// Sealed frames are keyed to the transfer and the lane that they belong to, raw ones to none. So two
/// lanes are keyed alike only where they are one.
pub proof fn lanes_are_keyed_by_transfer_and_lane(
    transfer_id: u128,
    lane_index: u32,
    other_id: u128,
    other_lane: u32,
)
    ensures
        keyed_lane(PayloadCodec::AeadV1, transfer_id, lane_index) == Some((transfer_id, lane_index)),
        keyed_lane(PayloadCodec::RawV1, transfer_id, lane_index) is None,
        keyed_lane(PayloadCodec::AeadV1, transfer_id, lane_index) == keyed_lane(
            PayloadCodec::AeadV1,
            other_id,
            other_lane,
        ) ==> transfer_id == other_id && lane_index == other_lane,
{
}

/// What raw frames stand for has exactly as many bytes as are expected, whatever came on the wire.
pub proof fn raw_payloads_arrive_whole(lane: Option<(u128, u32)>, wire: Seq<u8>, expected: nat)
    ensures
        lane_payload(PayloadCodec::RawV1, lane, wire, expected) matches Some(payload)
            ==> payload.len() == expected,
    decreases expected,
{
    if expected > 0 && wire.len() >= APP_PAYLOAD_FRAME_HEADER_BYTES {
        if let Ok((plaintext_len, _)) = codec::parsed_frame_header(wire.subrange(0, 16)) {
            let end = 16 + codec::wire_len(PayloadCodec::RawV1, plaintext_len);
            if wire.len() >= end && 0 < plaintext_len <= expected {
                raw_payloads_arrive_whole(
                    lane,
                    wire.skip(end as int),
                    (expected - plaintext_len) as nat,
                );
            }
        }
    }
}

/// A frame that stands for a chunk announces the length of the chunk and is as long as its header and
/// its payload. A raw one carries the chunk itself.
pub proof fn chunk_frames_announce_their_chunk(
    payload_codec: PayloadCodec,
    lane: Option<(u128, u32)>,
    frame: Seq<u8>,
    chunk: Seq<u8>,
)
    requires
        frames_chunk(payload_codec, lane, frame, chunk),
    ensures
        chunk.len() == frame[0] + 256 * frame[1] + 65536 * frame[2] + 16777216 * frame[3],
        payload_codec == PayloadCodec::RawV1 ==> frame.len() == 16 + chunk.len() && frame.skip(16)
            == chunk,
        payload_codec == PayloadCodec::AeadV1 ==> frame.len() == 32 + chunk.len() && lane is Some,
{
    let header = frame.subrange(0, 16);
    codec::frame_headers_are_read_by_their_places(header);
}

/// A lane is written in order: what was made durable, and what was written since, reach from where the
/// lane resumed to where it was written, and less than 1 MiB of it is not durable yet.
pub proof fn little_is_lost_between_records(progress: WriterProgress)
    requires
        progress.wf(),
    ensures
        progress.written_offset() == progress.resume_offset + progress.bytes_written,
        progress.resume_offset <= progress.last_durable_offset <= progress.written_offset(),
        progress.written_offset() - progress.last_durable_offset < 1024 * 1024,
{
}

/// A stream that is cut short stands for nothing, while bytes are still expected: where less than a
/// header is left, and where less than the payload is left that the header announces. Once all bytes
/// have come, what follows on the wire does not matter.
pub proof fn cut_streams_stand_for_nothing(
    payload_codec: PayloadCodec,
    lane: Option<(u128, u32)>,
    wire: Seq<u8>,
    expected: nat,
)
    ensures
        lane_payload(payload_codec, lane, wire, 0) == Some(Seq::<u8>::empty()),
        expected > 0 && wire.len() < 16 ==> lane_payload(payload_codec, lane, wire, expected)
            is None,
        expected > 0 && wire.len() >= 16 ==> (codec::parsed_frame_header(wire.subrange(0, 16))
            matches Ok((plaintext_len, _)) ==> (wire.len() < 16 + codec::wire_len(
            payload_codec,
            plaintext_len,
        ) ==> lane_payload(payload_codec, lane, wire, expected) is None)),
{
}

} // verus!
