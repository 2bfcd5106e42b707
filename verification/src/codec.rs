//! Payload codecs: lane keys, sealing and opening, and the framing of payload chunks.
//!
//! A payload frame is a sixteen-byte header followed by the wire payload. The header holds the
//! plaintext length (four bytes, little endian) and the twelve-byte nonce.

use crate::bytes;
use crate::bytes::{copied, u32_from_le_bytes, u32_to_be_bytes, u32_to_le_bytes};
use crate::ids::id_bytes;
use crate::text;
use crate::text::{same_text, with_two_numbers};
use vstd::prelude::*;
use vstd::string::*;

verus! {

pub const APP_PAYLOAD_CODEC_RAW_V1: &'static str = "raw-v1";

pub const APP_PAYLOAD_CODEC_AEAD_V1: &'static str = "aead-chacha20poly1305-v1";

pub const APP_PAYLOAD_CODEC_DEFAULT: &'static str = APP_PAYLOAD_CODEC_AEAD_V1;

pub const APP_PAYLOAD_FRAME_HEADER_BYTES: usize = 16;

pub const APP_PAYLOAD_AEAD_TAG_BYTES: usize = 16;

pub const APP_PAYLOAD_MAX_PLAINTEXT_BYTES: usize = 67_108_864;

pub const APP_RECEIVE_WRITE_PIPELINE_DEPTH_DEFAULT: usize = 4;

pub const APP_RECEIVE_WRITE_PIPELINE_DEPTH_MIN: usize = 1;

pub const APP_RECEIVE_WRITE_PIPELINE_DEPTH_MAX: usize = 32;

/// The longest message that one ChaCha20-Poly1305 call can seal.
pub const AEAD_MESSAGE_MAX_BYTES: u64 = 274_877_906_816;

/// The shortest message that ChaCha20-Poly1305 rejects as too long.
pub const AEAD_MESSAGE_REJECTED_BYTES: u64 = 274_877_906_880;

/// How the payload bytes of a lane are coded on the wire.
#[derive(Debug, Clone, Copy, PartialEq, Eq, Structural)]
pub enum PayloadCodec {
    RawV1,
    AeadV1,
}

impl PayloadCodec {
    /// The name of the codec on the wire.
    pub open spec fn wire_name(self) -> Seq<char> {
        match self {
            PayloadCodec::RawV1 => APP_PAYLOAD_CODEC_RAW_V1@,
            PayloadCodec::AeadV1 => APP_PAYLOAD_CODEC_AEAD_V1@,
        }
    }

    /// The codec of a wire name.
    pub open spec fn named(name: Seq<char>) -> Option<PayloadCodec> {
        if name == APP_PAYLOAD_CODEC_RAW_V1@ {
            Some(PayloadCodec::RawV1)
        } else if name == APP_PAYLOAD_CODEC_AEAD_V1@ {
            Some(PayloadCodec::AeadV1)
        } else {
            None
        }
    }

    pub fn as_wire(self) -> (r: &'static str)
        ensures
            r@ == self.wire_name(),
    {
        match self {
            PayloadCodec::RawV1 => APP_PAYLOAD_CODEC_RAW_V1,
            PayloadCodec::AeadV1 => APP_PAYLOAD_CODEC_AEAD_V1,
        }
    }

    pub fn from_wire(value: &str) -> (r: Option<Self>)
        ensures
            r == Self::named(value@),
    {
        if same_text(value, APP_PAYLOAD_CODEC_RAW_V1) {
            Some(PayloadCodec::RawV1)
        } else if same_text(value, APP_PAYLOAD_CODEC_AEAD_V1) {
            Some(PayloadCodec::AeadV1)
        } else {
            None
        }
    }
}

/// Every codec is recovered from its wire name, and only the two wire names denote a codec.
pub proof fn codec_names_are_inverse(codec: PayloadCodec, name: Seq<char>)
    ensures
        PayloadCodec::named(codec.wire_name()) == Some(codec),
        PayloadCodec::named(name) matches Some(c) ==> c.wire_name() == name,
{
    reveal_strlit("raw-v1");
    reveal_strlit("aead-chacha20poly1305-v1");
    assert(APP_PAYLOAD_CODEC_RAW_V1@.len() != APP_PAYLOAD_CODEC_AEAD_V1@.len());
}

/// An error of the ChaCha20-Poly1305 cipher.
#[verifier::external_type_specification]
#[verifier::external_body]
pub struct ExAeadError(chacha20poly1305::Error);

/// What ChaCha20-Poly1305 makes of a plaintext under a key, a nonce and associated data.
pub uninterp spec fn aead_sealed(key: Seq<u8>, nonce: Seq<u8>, aad: Seq<u8>, plaintext: Seq<u8>) -> Option<Seq<u8>>;

/// What ChaCha20-Poly1305 recovers from a sealed message under a key, a nonce and associated data.
pub uninterp spec fn aead_opened(key: Seq<u8>, nonce: Seq<u8>, aad: Seq<u8>, sealed: Seq<u8>) -> Option<Seq<u8>>;

/// The BLAKE3 digest of a byte string.
pub uninterp spec fn blake3_digest(input: Seq<u8>) -> Seq<u8>;

/// Whether a message of this length is either sealed or rejected with an error. The few lengths
/// between the two limits exhaust the key stream and end in a panic of the cipher.
pub open spec fn aead_len_supported(len: nat) -> bool {
    &&& len <= AEAD_MESSAGE_MAX_BYTES || AEAD_MESSAGE_REJECTED_BYTES <= len
    &&& len + APP_PAYLOAD_AEAD_TAG_BYTES <= isize::MAX
}

/// `blake3::hash`: the digest of the input, thirty-two bytes that depend on the input alone.
#[verifier::external_body]
fn blake3_hash(input: &[u8]) -> (r: [u8; 32])
    ensures
        r@ == blake3_digest(input@),
{
    *blake3::hash(input).as_bytes()
}

/// `chacha20poly1305::aead::Aead::encrypt` of the cipher that `ChaCha20Poly1305::new` makes of
/// the key. It succeeds exactly up to the longest message that the key stream covers; the result
/// is the message enciphered, with a sixteen-byte tag behind it, and it opens to the message
/// again.
#[verifier::external_body]
fn chacha20poly1305_encrypt(key: &[u8; 32], nonce: &[u8; 12], aad: &[u8], plaintext: &[u8]) -> (r:
    Result<Vec<u8>, chacha20poly1305::Error>)
    requires
        aead_len_supported(plaintext@.len()),
    ensures
        r is Ok <==> plaintext@.len() <= AEAD_MESSAGE_MAX_BYTES,
        match r {
            Ok(sealed) => {
                &&& aead_sealed(key@, nonce@, aad@, plaintext@) == Some(sealed@)
                &&& sealed@.len() == plaintext@.len() + APP_PAYLOAD_AEAD_TAG_BYTES
                &&& aead_opened(key@, nonce@, aad@, sealed@) == Some(plaintext@)
            },
            Err(_) => aead_sealed(key@, nonce@, aad@, plaintext@) is None,
        },
{
    let key = chacha20poly1305::Key::from_slice(key);
    let cipher = <chacha20poly1305::ChaCha20Poly1305 as chacha20poly1305::KeyInit>::new(key);
    let payload = chacha20poly1305::aead::Payload { msg: plaintext, aad };
    let nonce = chacha20poly1305::Nonce::from_slice(nonce);
    chacha20poly1305::aead::Aead::encrypt(&cipher, nonce, payload)
}

/// `chacha20poly1305::aead::Aead::decrypt` of the cipher that `ChaCha20Poly1305::new` makes of
/// the key. A message shorter than the tag, or too long for the key stream, is an error. What
/// opens is a message that sealing the result gives again, sixteen bytes longer than the result.
#[verifier::external_body]
fn chacha20poly1305_decrypt(key: &[u8; 32], nonce: &[u8; 12], aad: &[u8], sealed: &[u8]) -> (r:
    Result<Vec<u8>, chacha20poly1305::Error>)
    requires
        sealed@.len() < APP_PAYLOAD_AEAD_TAG_BYTES || aead_len_supported(
            (sealed@.len() - APP_PAYLOAD_AEAD_TAG_BYTES) as nat,
        ),
    ensures
        match r {
            Ok(plaintext) => {
                &&& aead_opened(key@, nonce@, aad@, sealed@) == Some(plaintext@)
                &&& sealed@.len() == plaintext@.len() + APP_PAYLOAD_AEAD_TAG_BYTES
                &&& plaintext@.len() <= AEAD_MESSAGE_MAX_BYTES
                &&& aead_sealed(key@, nonce@, aad@, plaintext@) == Some(sealed@)
            },
            Err(_) => aead_opened(key@, nonce@, aad@, sealed@) is None,
        },
{
    let key = chacha20poly1305::Key::from_slice(key);
    let cipher = <chacha20poly1305::ChaCha20Poly1305 as chacha20poly1305::KeyInit>::new(key);
    let payload = chacha20poly1305::aead::Payload { msg: sealed, aad };
    let nonce = chacha20poly1305::Nonce::from_slice(nonce);
    chacha20poly1305::aead::Aead::decrypt(&cipher, nonce, payload)
}

/// The bytes that name one lane of one transfer: the identifier, then the lane index.
pub open spec fn lane_label(transfer_id: u128, lane_index: u32) -> Seq<u8> {
    bytes::be_bytes(transfer_id as nat, 16) + bytes::be_bytes(lane_index as nat, 4)
}

/// The bytes that are digested into the key of a lane.
pub open spec fn lane_key_input(transfer_id: u128, lane_index: u32) -> Seq<u8> {
    "metra-app-aead-v1".spec_bytes() + lane_label(transfer_id, lane_index)
}

/// The key of a lane.
pub open spec fn lane_key(transfer_id: u128, lane_index: u32) -> Seq<u8> {
    blake3_digest(lane_key_input(transfer_id, lane_index))
}

/// What a lane seals a plaintext to.
pub open spec fn lane_sealed(transfer_id: u128, lane_index: u32, nonce: Seq<u8>, plaintext: Seq<u8>) -> Option<Seq<u8>> {
    aead_sealed(
        lane_key(transfer_id, lane_index),
        nonce,
        lane_label(transfer_id, lane_index),
        plaintext,
    )
}

/// What a lane opens a sealed message to.
pub open spec fn lane_opened(transfer_id: u128, lane_index: u32, nonce: Seq<u8>, sealed: Seq<u8>) -> Option<Seq<u8>> {
    aead_opened(
        lane_key(transfer_id, lane_index),
        nonce,
        lane_label(transfer_id, lane_index),
        sealed,
    )
}

/// The AEAD codec of one lane of one transfer.
pub struct AeadLaneCodec {
    transfer_id: u128,
    lane_index: u32,
    key: [u8; 32],
}

impl Clone for AeadLaneCodec {
    fn clone(&self) -> (r: Self)
        ensures
            r == *self,
    {
        proof {
            use_type_invariant(self);
        }
        AeadLaneCodec {
            transfer_id: self.transfer_id,
            lane_index: self.lane_index,
            key: self.key,
        }
    }
}

impl AeadLaneCodec {
    pub closed spec fn transfer_id(&self) -> u128 {
        self.transfer_id
    }

    pub closed spec fn lane_index(&self) -> u32 {
        self.lane_index
    }

    #[verifier::type_invariant]
    spec fn keyed(&self) -> bool {
        self.key@ == lane_key(self.transfer_id, self.lane_index)
    }

    pub fn new(transfer_id: u128, lane_index: u32) -> (r: Self)
        ensures
            r.transfer_id() == transfer_id,
            r.lane_index() == lane_index,
    {
        let mut input: Vec<u8> = Vec::new();
        input.extend_from_slice("metra-app-aead-v1".as_bytes());
        input.extend_from_slice(id_bytes(transfer_id).as_slice());
        input.extend_from_slice(u32_to_be_bytes(lane_index).as_slice());
        proof {
            assert(input@ =~= lane_key_input(transfer_id, lane_index));
        }
        let key = blake3_hash(input.as_slice());
        AeadLaneCodec { transfer_id, lane_index, key }
    }

    /// The associated data of the lane.
    fn aad(&self) -> (r: Vec<u8>)
        ensures
            r@ == lane_label(self.transfer_id(), self.lane_index()),
    {
        let mut aad: Vec<u8> = Vec::new();
        aad.extend_from_slice(id_bytes(self.transfer_id).as_slice());
        aad.extend_from_slice(u32_to_be_bytes(self.lane_index).as_slice());
        aad
    }

    pub fn seal(&self, nonce_bytes: [u8; 12], plaintext: &[u8]) -> (r: Result<Vec<u8>, String>)
        requires
            aead_len_supported(plaintext@.len()),
        ensures
            r is Ok <==> plaintext@.len() <= AEAD_MESSAGE_MAX_BYTES,
            match r {
                Ok(sealed) => {
                    &&& lane_sealed(
                        self.transfer_id(),
                        self.lane_index(),
                        nonce_bytes@,
                        plaintext@,
                    ) == Some(sealed@)
                    &&& lane_opened(
                        self.transfer_id(),
                        self.lane_index(),
                        nonce_bytes@,
                        sealed@,
                    ) == Some(plaintext@)
                    &&& sealed@.len() == plaintext@.len() + APP_PAYLOAD_AEAD_TAG_BYTES
                },
                Err(message) => {
                    &&& lane_sealed(
                        self.transfer_id(),
                        self.lane_index(),
                        nonce_bytes@,
                        plaintext@,
                    ) is None
                    &&& message@ == "app-level AEAD encryption failed"@
                },
            },
    {
        proof {
            use_type_invariant(self);
        }
        let aad = self.aad();
        match chacha20poly1305_encrypt(&self.key, &nonce_bytes, aad.as_slice(), plaintext) {
            Ok(sealed) => Ok(sealed),
            Err(_) => Err("app-level AEAD encryption failed".to_owned()),
        }
    }

    pub fn open(&self, nonce_bytes: [u8; 12], ciphertext: &[u8]) -> (r: Result<Vec<u8>, String>)
        requires
            ciphertext@.len() < APP_PAYLOAD_AEAD_TAG_BYTES || aead_len_supported(
                (ciphertext@.len() - APP_PAYLOAD_AEAD_TAG_BYTES) as nat,
            ),
        ensures
            match r {
                Ok(plaintext) => {
                    &&& lane_opened(
                        self.transfer_id(),
                        self.lane_index(),
                        nonce_bytes@,
                        ciphertext@,
                    ) == Some(plaintext@)
                    &&& lane_sealed(
                        self.transfer_id(),
                        self.lane_index(),
                        nonce_bytes@,
                        plaintext@,
                    ) == Some(ciphertext@)
                    &&& ciphertext@.len() == plaintext@.len() + APP_PAYLOAD_AEAD_TAG_BYTES
                },
                Err(message) => {
                    &&& lane_opened(
                        self.transfer_id(),
                        self.lane_index(),
                        nonce_bytes@,
                        ciphertext@,
                    ) is None
                    &&& message@ == "app-level AEAD decryption failed"@
                },
            },
    {
        proof {
            use_type_invariant(self);
        }
        let aad = self.aad();
        match chacha20poly1305_decrypt(&self.key, &nonce_bytes, aad.as_slice(), ciphertext) {
            Ok(plaintext) => Ok(plaintext),
            Err(_) => Err("app-level AEAD decryption failed".to_owned()),
        }
    }
}

/// The depth of the receive pipeline, held within its limits.
pub fn normalize_receive_write_pipeline_depth(depth: usize) -> (r: usize)
    ensures
        r == pipeline_depth(depth),
        1 <= depth <= 32 ==> r == depth,
        1 <= r <= 32,
{
    if depth < APP_RECEIVE_WRITE_PIPELINE_DEPTH_MIN {
        APP_RECEIVE_WRITE_PIPELINE_DEPTH_MIN
    } else if depth > APP_RECEIVE_WRITE_PIPELINE_DEPTH_MAX {
        APP_RECEIVE_WRITE_PIPELINE_DEPTH_MAX
    } else {
        depth
    }
}

/// The depth nearest to `depth` that the receive pipeline allows.
pub open spec fn pipeline_depth(depth: usize) -> usize {
    if depth < APP_RECEIVE_WRITE_PIPELINE_DEPTH_MIN {
        APP_RECEIVE_WRITE_PIPELINE_DEPTH_MIN
    } else if depth > APP_RECEIVE_WRITE_PIPELINE_DEPTH_MAX {
        APP_RECEIVE_WRITE_PIPELINE_DEPTH_MAX
    } else {
        depth
    }
}

/// Whether a plaintext of this length fits in one frame.
pub open spec fn framable(plaintext_len: nat) -> bool {
    0 < plaintext_len <= APP_PAYLOAD_MAX_PLAINTEXT_BYTES
}

/// Why a plaintext of this length does not fit in one frame.
pub open spec fn unframable_reason(plaintext_len: nat) -> Seq<char> {
    if plaintext_len == 0 {
        "plaintext frame length must be > 0"@
    } else {
        "plaintext frame length "@ + text::decimal(plaintext_len) + " exceeds max "@
            + text::decimal(APP_PAYLOAD_MAX_PLAINTEXT_BYTES as nat)
    }
}

/// The length on the wire of a framable plaintext.
pub open spec fn wire_len(codec: PayloadCodec, plaintext_len: nat) -> nat {
    match codec {
        PayloadCodec::RawV1 => plaintext_len,
        PayloadCodec::AeadV1 => plaintext_len + APP_PAYLOAD_AEAD_TAG_BYTES as nat,
    }
}

fn check_framable(plaintext_len: usize) -> (r: Result<(), String>)
    ensures
        match r {
            Ok(()) => framable(plaintext_len as nat),
            Err(message) => !framable(plaintext_len as nat) && message@ == unframable_reason(
                plaintext_len as nat,
            ),
        },
{
    if plaintext_len == 0 {
        return Err("plaintext frame length must be > 0".to_owned());
    }
    if plaintext_len > APP_PAYLOAD_MAX_PLAINTEXT_BYTES {
        return Err(
            with_two_numbers(
                "plaintext frame length ",
                plaintext_len as u64,
                " exceeds max ",
                APP_PAYLOAD_MAX_PLAINTEXT_BYTES as u64,
            ),
        );
    }
    Ok(())
}

pub fn app_payload_wire_len(codec: PayloadCodec, plaintext_len: usize) -> (r: Result<usize, String>)
    ensures
        match r {
            Ok(len) => framable(plaintext_len as nat) && len == wire_len(
                codec,
                plaintext_len as nat,
            ),
            Err(message) => !framable(plaintext_len as nat) && message@ == unframable_reason(
                plaintext_len as nat,
            ),
        },
{
    match check_framable(plaintext_len) {
        Ok(()) => {},
        Err(message) => {
            return Err(message);
        },
    }
    match codec {
        PayloadCodec::RawV1 => Ok(plaintext_len),
        PayloadCodec::AeadV1 => Ok(plaintext_len + APP_PAYLOAD_AEAD_TAG_BYTES),
    }
}

/// The header of a frame: the plaintext length in four little-endian bytes, then the nonce.
pub open spec fn frame_header(plaintext_len: nat, nonce: Seq<u8>) -> Seq<u8> {
    bytes::le_bytes(plaintext_len, 4) + nonce
}

pub fn encode_payload_frame_header(plaintext_len: usize, nonce: [u8; 12]) -> (r: Result<
    [u8; APP_PAYLOAD_FRAME_HEADER_BYTES],
    String,
>)
    ensures
        match r {
            Ok(header) => framable(plaintext_len as nat) && header@ == frame_header(
                plaintext_len as nat,
                nonce@,
            ),
            Err(message) => !framable(plaintext_len as nat) && message@ == unframable_reason(
                plaintext_len as nat,
            ),
        },
{
    match check_framable(plaintext_len) {
        Ok(()) => {},
        Err(message) => {
            return Err(message);
        },
    }
    let len: [u8; 4] = u32_to_le_bytes(plaintext_len as u32);
    let header: [u8; APP_PAYLOAD_FRAME_HEADER_BYTES] = [
        len[0],
        len[1],
        len[2],
        len[3],
        nonce[0],
        nonce[1],
        nonce[2],
        nonce[3],
        nonce[4],
        nonce[5],
        nonce[6],
        nonce[7],
        nonce[8],
        nonce[9],
        nonce[10],
        nonce[11],
    ];
    proof {
        assert(header@ =~= len@ + nonce@);
    }
    Ok(header)
}

/// What a frame header denotes: the plaintext length and the nonce, or why it is refused.
pub open spec fn parsed_frame_header(header: Seq<u8>) -> Result<(nat, Seq<u8>), Seq<char>> {
    let len = bytes::le_value(header.subrange(0, 4));
    if len == 0 {
        Err("payload frame plaintext length must be > 0"@)
    } else if len > APP_PAYLOAD_MAX_PLAINTEXT_BYTES {
        Err(
            "payload frame plaintext length "@ + text::decimal(len) + " exceeds max "@
                + text::decimal(APP_PAYLOAD_MAX_PLAINTEXT_BYTES as nat),
        )
    } else {
        Ok((len, header.subrange(4, 16)))
    }
}

pub fn decode_payload_frame_header(header: [u8; APP_PAYLOAD_FRAME_HEADER_BYTES]) -> (r: Result<
    (usize, [u8; 12]),
    String,
>)
    ensures
        match r {
            Ok((plaintext_len, nonce)) => {
                &&& parsed_frame_header(header@) == Ok::<(nat, Seq<u8>), Seq<char>>(
                    (plaintext_len as nat, nonce@),
                )
                &&& framable(plaintext_len as nat)
            },
            Err(message) => parsed_frame_header(header@) == Err::<(nat, Seq<u8>), Seq<char>>(
                message@,
            ),
        },
{
    let len_bytes: [u8; 4] = [header[0], header[1], header[2], header[3]];
    proof {
        assert(len_bytes@ =~= header@.subrange(0, 4));
    }
    let plaintext_len: usize = u32_from_le_bytes(len_bytes) as usize;
    if plaintext_len == 0 {
        return Err("payload frame plaintext length must be > 0".to_owned());
    }
    if plaintext_len > APP_PAYLOAD_MAX_PLAINTEXT_BYTES {
        return Err(
            with_two_numbers(
                "payload frame plaintext length ",
                plaintext_len as u64,
                " exceeds max ",
                APP_PAYLOAD_MAX_PLAINTEXT_BYTES as u64,
            ),
        );
    }
    let nonce: [u8; 12] = [
        header[4],
        header[5],
        header[6],
        header[7],
        header[8],
        header[9],
        header[10],
        header[11],
        header[12],
        header[13],
        header[14],
        header[15],
    ];
    proof {
        assert(nonce@ =~= header@.subrange(4, 16));
    }
    Ok((plaintext_len, nonce))
}

/// The lane that an optional codec belongs to.
pub open spec fn lane_of(codec: Option<&AeadLaneCodec>) -> Option<(u128, u32)> {
    match codec {
        Some(c) => Some((c.transfer_id(), c.lane_index())),
        None => None,
    }
}

/// The payload that stands behind the header of a frame, or why there is none.
pub open spec fn sealed_payload(
    codec: PayloadCodec,
    plaintext: Seq<u8>,
    nonce: Seq<u8>,
    lane: Option<(u128, u32)>,
) -> Result<Seq<u8>, Seq<char>> {
    match codec {
        PayloadCodec::RawV1 => Ok(plaintext),
        PayloadCodec::AeadV1 => match lane {
            None => Err("missing AEAD codec"@),
            Some((transfer_id, lane_index)) => match lane_sealed(
                transfer_id,
                lane_index,
                nonce,
                plaintext,
            ) {
                Some(sealed) => Ok(sealed),
                None => Err("app-level AEAD encryption failed"@),
            },
        },
    }
}

/// The frame of a plaintext, or why there is none.
pub open spec fn payload_frame(
    codec: PayloadCodec,
    plaintext: Seq<u8>,
    nonce: Seq<u8>,
    lane: Option<(u128, u32)>,
) -> Result<Seq<u8>, Seq<char>> {
    match sealed_payload(codec, plaintext, nonce, lane) {
        Err(reason) => Err(reason),
        Ok(payload) => if framable(plaintext.len()) {
            Ok(frame_header(plaintext.len(), nonce) + payload)
        } else {
            Err(unframable_reason(plaintext.len()))
        },
    }
}

/// The plaintext that a received wire payload stands for, or why it is refused.
pub open spec fn received_plaintext(
    codec: PayloadCodec,
    plaintext_len: nat,
    nonce: Seq<u8>,
    wire_payload: Seq<u8>,
    lane: Option<(u128, u32)>,
) -> Result<Seq<u8>, Seq<char>> {
    if !framable(plaintext_len) {
        Err(unframable_reason(plaintext_len))
    } else if wire_payload.len() != wire_len(codec, plaintext_len) {
        Err(
            "wire payload length mismatch: got "@ + text::decimal(wire_payload.len())
                + " expected "@ + text::decimal(wire_len(codec, plaintext_len)),
        )
    } else {
        match codec {
            PayloadCodec::RawV1 => Ok(wire_payload),
            PayloadCodec::AeadV1 => match lane {
                None => Err("missing AEAD codec"@),
                Some((transfer_id, lane_index)) => match lane_opened(
                    transfer_id,
                    lane_index,
                    nonce,
                    wire_payload,
                ) {
                    Some(plaintext) => Ok(plaintext),
                    None => Err("app-level AEAD decryption failed"@),
                },
            },
        }
    }
}

/// Frames one plaintext chunk. The frame holds what `received_plaintext` takes back to the chunk.
pub fn encode_payload_frame(
    codec: PayloadCodec,
    plaintext: &[u8],
    nonce: [u8; 12],
    aead_codec: Option<&AeadLaneCodec>,
) -> (r: Result<Vec<u8>, String>)
    requires
        codec == PayloadCodec::AeadV1 && aead_codec is Some ==> aead_len_supported(
            plaintext@.len(),
        ),
    ensures
        framable(plaintext@.len()) && (codec == PayloadCodec::AeadV1 ==> aead_codec is Some)
            <==> r is Ok,
        match r {
            Ok(frame) => {
                &&& payload_frame(codec, plaintext@, nonce@, lane_of(aead_codec)) == Ok::<
                    Seq<u8>,
                    Seq<char>,
                >(frame@)
                &&& frame@.len() == APP_PAYLOAD_FRAME_HEADER_BYTES + wire_len(
                    codec,
                    plaintext@.len(),
                )
                &&& parsed_frame_header(frame@.subrange(0, 16)) == Ok::<
                    (nat, Seq<u8>),
                    Seq<char>,
                >((plaintext@.len(), nonce@))
                &&& received_plaintext(
                    codec,
                    plaintext@.len(),
                    nonce@,
                    frame@.skip(16),
                    lane_of(aead_codec),
                ) == Ok::<Seq<u8>, Seq<char>>(plaintext@)
                &&& codec == PayloadCodec::RawV1 ==> frame@.skip(16) == plaintext@
            },
            Err(message) => payload_frame(codec, plaintext@, nonce@, lane_of(aead_codec)) == Err::<
                Seq<u8>,
                Seq<char>,
            >(message@),
        },
{
    let wire_payload: Vec<u8> = match codec {
        PayloadCodec::RawV1 => copied(plaintext),
        PayloadCodec::AeadV1 => match aead_codec {
            None => {
                return Err("missing AEAD codec".to_owned());
            },
            Some(lane_codec) => match lane_codec.seal(nonce, plaintext) {
                Ok(sealed) => sealed,
                Err(message) => {
                    return Err(message);
                },
            },
        },
    };
    let header = match encode_payload_frame_header(plaintext.len(), nonce) {
        Ok(header) => header,
        Err(message) => {
            return Err(message);
        },
    };
    let mut out: Vec<u8> = Vec::new();
    out.extend_from_slice(header.as_slice());
    out.extend_from_slice(wire_payload.as_slice());
    proof {
        assert(wire_payload@.len() == wire_len(codec, plaintext@.len()));
        frame_header_round_trip(plaintext@.len(), nonce@);
        assert(out@ =~= frame_header(plaintext@.len(), nonce@) + wire_payload@);
        assert(out@.subrange(0, 16) =~= header@);
        assert(out@.skip(16) =~= wire_payload@);
    }
    Ok(out)
}

/// Recovers the plaintext of a received payload. What it accepts is exactly what framing the
/// recovered plaintext gives.
pub fn decode_payload_frame(
    codec: PayloadCodec,
    plaintext_len: usize,
    nonce: [u8; 12],
    wire_payload: &[u8],
    aead_codec: Option<&AeadLaneCodec>,
) -> (r: Result<Vec<u8>, String>)
    ensures
        match r {
            Ok(plaintext) => {
                &&& received_plaintext(
                    codec,
                    plaintext_len as nat,
                    nonce@,
                    wire_payload@,
                    lane_of(aead_codec),
                ) == Ok::<Seq<u8>, Seq<char>>(plaintext@)
                &&& plaintext@.len() == plaintext_len
                &&& codec == PayloadCodec::RawV1 ==> plaintext@ == wire_payload@
                &&& sealed_payload(codec, plaintext@, nonce@, lane_of(aead_codec)) == Ok::<
                    Seq<u8>,
                    Seq<char>,
                >(wire_payload@)
            },
            Err(message) => received_plaintext(
                codec,
                plaintext_len as nat,
                nonce@,
                wire_payload@,
                lane_of(aead_codec),
            ) == Err::<Seq<u8>, Seq<char>>(message@),
        },
{
    let expected_wire_len: usize = match app_payload_wire_len(codec, plaintext_len) {
        Ok(len) => len,
        Err(message) => {
            return Err(message);
        },
    };
    if wire_payload.len() != expected_wire_len {
        return Err(
            with_two_numbers(
                "wire payload length mismatch: got ",
                wire_payload.len() as u64,
                " expected ",
                expected_wire_len as u64,
            ),
        );
    }
    match codec {
        PayloadCodec::RawV1 => Ok(copied(wire_payload)),
        PayloadCodec::AeadV1 => match aead_codec {
            None => Err("missing AEAD codec".to_owned()),
            Some(lane_codec) => lane_codec.open(nonce, wire_payload),
        },
    }
}

/// A header is read back as the length and the nonce that it was made of.
pub proof fn frame_header_round_trip(plaintext_len: nat, nonce: Seq<u8>)
    requires
        framable(plaintext_len),
        nonce.len() == 12,
    ensures
        frame_header(plaintext_len, nonce).len() == APP_PAYLOAD_FRAME_HEADER_BYTES,
        parsed_frame_header(frame_header(plaintext_len, nonce)) == Ok::<
            (nat, Seq<u8>),
            Seq<char>,
        >((plaintext_len, nonce)),
{
    reveal_with_fuel(bytes::byte_range, 5);
    bytes::le_bytes_round_trip(plaintext_len, 4);
    let header = frame_header(plaintext_len, nonce);
    assert(header.subrange(0, 4) =~= bytes::le_bytes(plaintext_len, 4));
    assert(header.subrange(4, 16) =~= nonce);
}

/// Two lanes have the same label only where they are the same lane of the same transfer, and the
/// same holds of the bytes that their keys are digested from.
pub proof fn lane_labels_are_distinct(id_a: u128, lane_a: u32, id_b: u128, lane_b: u32)
    ensures
        lane_label(id_a, lane_a) == lane_label(id_b, lane_b) ==> id_a == id_b && lane_a == lane_b,
        lane_key_input(id_a, lane_a) == lane_key_input(id_b, lane_b) ==> id_a == id_b && lane_a
            == lane_b,
{
    reveal_with_fuel(bytes::byte_range, 17);
    bytes::be_bytes_round_trip(id_a as nat, 16);
    bytes::be_bytes_round_trip(id_b as nat, 16);
    bytes::be_bytes_round_trip(lane_a as nat, 4);
    bytes::be_bytes_round_trip(lane_b as nat, 4);
    let a = lane_label(id_a, lane_a);
    let b = lane_label(id_b, lane_b);
    assert(a.subrange(0, 16) =~= bytes::be_bytes(id_a as nat, 16));
    assert(b.subrange(0, 16) =~= bytes::be_bytes(id_b as nat, 16));
    assert(a.subrange(16, 20) =~= bytes::be_bytes(lane_a as nat, 4));
    assert(b.subrange(16, 20) =~= bytes::be_bytes(lane_b as nat, 4));
    let context = "metra-app-aead-v1".spec_bytes();
    let n = context.len() as int;
    assert(lane_key_input(id_a, lane_a).subrange(n, n + 20) =~= a);
    assert(lane_key_input(id_b, lane_b).subrange(n, n + 20) =~= b);
}

/// The depth of the receive pipeline lies within one and 32, and of all such depths it is the nearest
/// to the one that was asked for.
pub proof fn pipeline_depths_are_the_nearest_allowed(depth: usize, other: usize)
    requires
        1 <= other <= 32,
    ensures
        1 <= pipeline_depth(depth) <= 32,
        vstd::math::abs(pipeline_depth(depth) - depth) <= vstd::math::abs(other - depth),
{
}

/// A plaintext fits in a frame where it has at least one byte and at most 64 MiB. Raw bytes take as
/// many on the wire; sealed ones take sixteen more.
pub proof fn frames_have_their_lengths(codec: PayloadCodec, plaintext_len: nat)
    ensures
        framable(plaintext_len) <==> 1 <= plaintext_len <= 64 * 1024 * 1024,
        codec == PayloadCodec::RawV1 ==> wire_len(codec, plaintext_len) == plaintext_len,
        codec == PayloadCodec::AeadV1 ==> wire_len(codec, plaintext_len) == plaintext_len + 16,
{
}

/// How a frame header is read: its first four bytes are the length, the least significant first, and
/// the twelve bytes behind them the nonce. It is refused exactly where no frame has that length.
pub proof fn frame_headers_are_read_by_their_places(header: Seq<u8>)
    requires
        header.len() == APP_PAYLOAD_FRAME_HEADER_BYTES,
    ensures
        ({
            let len = header[0] + 256 * header[1] + 65536 * header[2] + 16777216 * header[3];
            &&& parsed_frame_header(header) is Ok <==> 1 <= len <= APP_PAYLOAD_MAX_PLAINTEXT_BYTES
            &&& parsed_frame_header(header) matches Ok((plaintext_len, nonce)) ==> {
                &&& plaintext_len == len
                &&& nonce.len() == 12
                &&& forall|i: int| 0 <= i < 12 ==> #[trigger] nonce[i] == header[i + 4]
            }
        }),
{
    let digits = header.subrange(0, 4);
    assert(digits =~= seq![header[0], header[1], header[2], header[3]]);
    bytes::four_bytes_are_weighed_by_their_places(header[0], header[1], header[2], header[3]);
}

/// Raw payloads travel as they are: the wire carries the plaintext, and what arrives is the plaintext
/// where it has the length that was announced. No key has a say in it.
pub proof fn raw_payloads_travel_as_they_are(
    plaintext: Seq<u8>,
    plaintext_len: nat,
    nonce: Seq<u8>,
    lane: Option<(u128, u32)>,
)
    ensures
        sealed_payload(PayloadCodec::RawV1, plaintext, nonce, lane) == Ok::<Seq<u8>, Seq<char>>(
            plaintext,
        ),
        received_plaintext(PayloadCodec::RawV1, plaintext_len, nonce, plaintext, lane) is Ok
            <==> plaintext.len() == plaintext_len && 1 <= plaintext_len
            <= APP_PAYLOAD_MAX_PLAINTEXT_BYTES,
        received_plaintext(PayloadCodec::RawV1, plaintext_len, nonce, plaintext, lane) matches Ok(
            received,
        ) ==> received == plaintext,
{
}

/// Sealed payloads are sealed and opened for their lane: under the key that is digested from the
/// context and the label of the lane, with the label as associated data. The label is the identifier
/// of the transfer in sixteen bytes and the lane in four, the most significant first. Without a lane
/// nothing is sealed or opened, and only a payload of the announced length is opened.
pub proof fn sealed_payloads_belong_to_their_lane(
    transfer_id: u128,
    lane_index: u32,
    nonce: Seq<u8>,
    payload: Seq<u8>,
    plaintext_len: nat,
)
    ensures
        ({
            let label = lane_label(transfer_id, lane_index);
            let key = blake3_digest("metra-app-aead-v1".spec_bytes() + label);
            let lane = Some((transfer_id, lane_index));
            &&& label.len() == 20
            &&& bytes::be_value(label.subrange(0, 16)) == transfer_id
            &&& bytes::be_value(label.subrange(16, 20)) == lane_index
            &&& sealed_payload(PayloadCodec::AeadV1, payload, nonce, lane) matches Ok(sealed)
                ==> aead_sealed(key, nonce, label, payload) == Some(sealed)
            &&& sealed_payload(PayloadCodec::AeadV1, payload, nonce, lane) is Err <==> aead_sealed(
                key,
                nonce,
                label,
                payload,
            ) is None
            &&& received_plaintext(PayloadCodec::AeadV1, plaintext_len, nonce, payload, lane)
                matches Ok(plaintext) ==> {
                &&& aead_opened(key, nonce, label, payload) == Some(plaintext)
                &&& payload.len() == plaintext_len + 16
                &&& 1 <= plaintext_len <= APP_PAYLOAD_MAX_PLAINTEXT_BYTES
            }
            &&& received_plaintext(PayloadCodec::AeadV1, plaintext_len, nonce, payload, lane) is Ok
                <==> {
                &&& aead_opened(key, nonce, label, payload) is Some
                &&& payload.len() == plaintext_len + 16
                &&& 1 <= plaintext_len <= APP_PAYLOAD_MAX_PLAINTEXT_BYTES
            }
            &&& sealed_payload(PayloadCodec::AeadV1, payload, nonce, None) is Err
            &&& received_plaintext(PayloadCodec::AeadV1, plaintext_len, nonce, payload, None) is Err
        }),
{
    reveal_with_fuel(bytes::byte_range, 17);
    bytes::be_bytes_round_trip(transfer_id as nat, 16);
    bytes::be_bytes_round_trip(lane_index as nat, 4);
    let label = lane_label(transfer_id, lane_index);
    assert(label.subrange(0, 16) =~= bytes::be_bytes(transfer_id as nat, 16));
    assert(label.subrange(16, 20) =~= bytes::be_bytes(lane_index as nat, 4));
}

/// A frame is a header of sixteen bytes and the payload of its codec; there is one exactly where there
/// is such a payload and the plaintext fits in a frame.
pub proof fn frames_are_headers_and_payloads(
    codec: PayloadCodec,
    plaintext: Seq<u8>,
    nonce: Seq<u8>,
    lane: Option<(u128, u32)>,
)
    requires
        nonce.len() == 12,
    ensures
        payload_frame(codec, plaintext, nonce, lane) is Ok <==> sealed_payload(
            codec,
            plaintext,
            nonce,
            lane,
        ) is Ok && 1 <= plaintext.len() <= APP_PAYLOAD_MAX_PLAINTEXT_BYTES,
        payload_frame(codec, plaintext, nonce, lane) matches Ok(frame) ==> {
            &&& plaintext.len() == frame[0] + 256 * frame[1] + 65536 * frame[2] + 16777216
                * frame[3]
            &&& frame.subrange(4, 16) == nonce
            &&& sealed_payload(codec, plaintext, nonce, lane) == Ok::<Seq<u8>, Seq<char>>(
                frame.skip(16),
            )
        },
{
    if let Ok(payload) = sealed_payload(codec, plaintext, nonce, lane) {
        if framable(plaintext.len()) {
            frame_header_round_trip(plaintext.len(), nonce);
            let header = frame_header(plaintext.len(), nonce);
            let frame = header + payload;
            frame_headers_are_read_by_their_places(header);
            assert(frame.subrange(4, 16) =~= header.subrange(4, 16));
            assert(header.subrange(4, 16) =~= nonce);
            assert(frame.skip(16) =~= payload);
        }
    }
}

} // verus!
