//! Control frames: a four-byte big-endian length, then that many bytes of JSON.

use crate::bytes;
use crate::bytes::{u32_from_be_bytes, u32_to_be_bytes};
use crate::text;
use crate::text::with_number;
use vstd::prelude::*;

verus! {

pub const QUIC_CONTROL_FRAME_MAX_BYTES: usize = 65_536;

/// Whether a frame that announces this length is read.
pub open spec fn is_readable_len(len: nat) -> bool {
    0 < len <= QUIC_CONTROL_FRAME_MAX_BYTES
}

/// The length that stands in front of a frame.
pub fn decode_frame_len(prefix: [u8; 4]) -> (r: Result<usize, String>)
    ensures
        match r {
            Ok(len) => {
                &&& len == bytes::be_value(prefix@)
                &&& is_readable_len(len as nat)
                &&& 1 <= len <= QUIC_CONTROL_FRAME_MAX_BYTES
            },
            Err(message) => {
                &&& !is_readable_len(bytes::be_value(prefix@))
                &&& bytes::be_value(prefix@) == 0 || bytes::be_value(prefix@)
                    > QUIC_CONTROL_FRAME_MAX_BYTES
                &&& message@ == "invalid frame length: "@ + text::decimal(bytes::be_value(prefix@))
            },
        },
{
    let len: u32 = u32_from_be_bytes(prefix);
    if len == 0 || len as usize > QUIC_CONTROL_FRAME_MAX_BYTES {
        return Err(with_number("invalid frame length: ", len as u64));
    }
    Ok(len as usize)
}

/// The frame of a payload.
pub open spec fn control_frame(payload: Seq<u8>) -> Seq<u8> {
    bytes::be_bytes(payload.len(), 4) + payload
}

pub fn encode_frame(payload: &[u8]) -> (r: Result<Vec<u8>, String>)
    ensures
        match r {
            Ok(frame) => payload@.len() <= QUIC_CONTROL_FRAME_MAX_BYTES && frame@ == control_frame(
                payload@,
            ),
            Err(message) => {
                &&& payload@.len() > QUIC_CONTROL_FRAME_MAX_BYTES
                &&& message@ == "outbound frame too large: "@ + text::decimal(payload@.len())
            },
        },
{
    if payload.len() > QUIC_CONTROL_FRAME_MAX_BYTES {
        return Err(with_number("outbound frame too large: ", payload.len() as u64));
    }
    let mut frame: Vec<u8> = Vec::new();
    frame.extend_from_slice(u32_to_be_bytes(payload.len() as u32).as_slice());
    frame.extend_from_slice(payload);
    Ok(frame)
}

/// A frame that is written is read back: the length in front of it is that of the payload, and the
/// rest is the payload. Only the empty payload can be written and not read.
pub proof fn control_frames_are_read_back(payload: Seq<u8>)
    requires
        payload.len() <= QUIC_CONTROL_FRAME_MAX_BYTES,
    ensures
        bytes::be_value(control_frame(payload).subrange(0, 4)) == payload.len(),
        control_frame(payload).skip(4) == payload,
        is_readable_len(payload.len()) <==> payload.len() > 0,
{
    reveal_with_fuel(bytes::byte_range, 5);
    bytes::be_bytes_round_trip(payload.len(), 4);
    assert(control_frame(payload).subrange(0, 4) =~= bytes::be_bytes(payload.len(), 4));
    assert(control_frame(payload).skip(4) =~= payload);
}

/// A frame leads with the length of its payload in four bytes, the most significant first, and is
/// four bytes longer than it.
pub proof fn control_frames_lead_with_their_length(payload: Seq<u8>)
    requires
        payload.len() <= QUIC_CONTROL_FRAME_MAX_BYTES,
    ensures
        ({
            let frame = control_frame(payload);
            &&& frame.len() == payload.len() + 4
            &&& payload.len() == 16777216 * frame[0] + 65536 * frame[1] + 256 * frame[2] + frame[3]
        }),
{
    control_frames_are_read_back(payload);
    reveal_with_fuel(bytes::byte_range, 5);
    bytes::be_bytes_round_trip(payload.len(), 4);
    let frame = control_frame(payload);
    assert(frame.subrange(0, 4) =~= seq![frame[0], frame[1], frame[2], frame[3]]);
    bytes::four_bytes_are_weighed_by_their_places(frame[0], frame[1], frame[2], frame[3]);
}

} // verus!
