use chacha20poly1305::aead::{Aead, KeyInit, Payload};
use metra::bytes::{u32_from_be_bytes, u32_from_le_bytes, u32_to_be_bytes, u32_to_le_bytes};
use metra::codec::{
    app_payload_wire_len, decode_payload_frame, decode_payload_frame_header, encode_payload_frame,
    encode_payload_frame_header, normalize_receive_write_pipeline_depth, AeadLaneCodec,
    PayloadCodec, APP_PAYLOAD_CODEC_DEFAULT, APP_PAYLOAD_MAX_PLAINTEXT_BYTES,
};

const ID: u128 = 0x0123_4567_89ab_cdef_0123_4567_89ab_cdef;
const NONCE: [u8; 12] = [1, 2, 3, 4, 5, 6, 7, 8, 9, 10, 11, 12];

#[test]
fn codec_wire_names() {
    assert_eq!(PayloadCodec::RawV1.as_wire(), "raw-v1");
    assert_eq!(PayloadCodec::AeadV1.as_wire(), "aead-chacha20poly1305-v1");
    for codec in [PayloadCodec::RawV1, PayloadCodec::AeadV1] {
        assert_eq!(PayloadCodec::from_wire(codec.as_wire()), Some(codec));
    }
    assert_eq!(PayloadCodec::from_wire("raw-v2"), None);
    assert_eq!(PayloadCodec::from_wire(""), None);
    assert_eq!(
        PayloadCodec::from_wire(APP_PAYLOAD_CODEC_DEFAULT),
        Some(PayloadCodec::AeadV1)
    );
}

#[test]
fn byte_orders_agree_with_std() {
    for n in [0u32, 1, 255, 256, 65_536, 0x1234_5678, u32::MAX] {
        assert_eq!(u32_to_be_bytes(n), n.to_be_bytes());
        assert_eq!(u32_to_le_bytes(n), n.to_le_bytes());
        assert_eq!(u32_from_be_bytes(n.to_be_bytes()), n);
        assert_eq!(u32_from_le_bytes(n.to_le_bytes()), n);
    }
}

#[test]
fn pipeline_depth_is_clamped() {
    for (given, expected) in [(0, 1), (1, 1), (4, 4), (32, 32), (33, 32), (usize::MAX, 32)] {
        assert_eq!(normalize_receive_write_pipeline_depth(given), expected);
    }
}

#[test]
fn wire_lengths_and_their_limits() {
    assert_eq!(app_payload_wire_len(PayloadCodec::RawV1, 10), Ok(10));
    assert_eq!(app_payload_wire_len(PayloadCodec::AeadV1, 10), Ok(26));
    assert_eq!(
        app_payload_wire_len(PayloadCodec::RawV1, 0),
        Err("plaintext frame length must be > 0".to_owned())
    );
    assert_eq!(
        app_payload_wire_len(PayloadCodec::AeadV1, APP_PAYLOAD_MAX_PLAINTEXT_BYTES + 1),
        Err("plaintext frame length 67108865 exceeds max 67108864".to_owned())
    );
    assert_eq!(
        app_payload_wire_len(PayloadCodec::AeadV1, APP_PAYLOAD_MAX_PLAINTEXT_BYTES),
        Ok(67_108_880)
    );
}

#[test]
fn frame_headers_round_trip() {
    let header = encode_payload_frame_header(0x0102_03, NONCE).expect("header");
    assert_eq!(&header[..4], &[3, 2, 1, 0]);
    assert_eq!(&header[4..], &NONCE);
    assert_eq!(decode_payload_frame_header(header), Ok((0x0102_03, NONCE)));
    assert_eq!(
        encode_payload_frame_header(0, NONCE),
        Err("plaintext frame length must be > 0".to_owned())
    );
    assert_eq!(
        encode_payload_frame_header(67_108_865, NONCE),
        Err("plaintext frame length 67108865 exceeds max 67108864".to_owned())
    );
}

#[test]
fn bad_frame_headers_are_refused() {
    assert_eq!(
        decode_payload_frame_header([0u8; 16]),
        Err("payload frame plaintext length must be > 0".to_owned())
    );
    let mut header = [0u8; 16];
    header[3] = 0xff;
    assert_eq!(
        decode_payload_frame_header(header),
        Err("payload frame plaintext length 4278190080 exceeds max 67108864".to_owned())
    );
}

#[test]
fn raw_frames_round_trip() {
    let frame = encode_payload_frame(PayloadCodec::RawV1, b"hello", NONCE, None).expect("frame");
    assert_eq!(&frame[16..], b"hello");
    let mut header = [0u8; 16];
    header.copy_from_slice(&frame[..16]);
    let (len, nonce) = decode_payload_frame_header(header).expect("header");
    assert_eq!(
        decode_payload_frame(PayloadCodec::RawV1, len, nonce, &frame[16..], None),
        Ok(b"hello".to_vec())
    );
}

#[test]
fn aead_frames_round_trip_on_their_own_lane_only() {
    let lane = AeadLaneCodec::new(ID, 3);
    let frame =
        encode_payload_frame(PayloadCodec::AeadV1, b"hello", NONCE, Some(&lane)).expect("frame");
    assert_eq!(frame.len(), 16 + 5 + 16);
    assert_ne!(&frame[16..21], b"hello");
    let body = &frame[16..];
    assert_eq!(
        decode_payload_frame(PayloadCodec::AeadV1, 5, NONCE, body, Some(&lane)),
        Ok(b"hello".to_vec())
    );
    let failed = Err("app-level AEAD decryption failed".to_owned());
    for other in [AeadLaneCodec::new(ID, 4), AeadLaneCodec::new(ID + 1, 3)] {
        assert_eq!(
            decode_payload_frame(PayloadCodec::AeadV1, 5, NONCE, body, Some(&other)),
            failed
        );
    }
    let mut tampered = body.to_vec();
    tampered[0] ^= 1;
    assert_eq!(
        decode_payload_frame(PayloadCodec::AeadV1, 5, NONCE, &tampered, Some(&lane)),
        failed
    );
    assert_eq!(
        decode_payload_frame(PayloadCodec::AeadV1, 5, [0u8; 12], body, Some(&lane)),
        failed
    );
    assert_eq!(lane.clone().open(NONCE, body), Ok(b"hello".to_vec()));
    assert_eq!(lane.open(NONCE, &body[..4]), failed);
}

#[test]
fn frame_faults_come_in_order() {
    assert_eq!(
        encode_payload_frame(PayloadCodec::AeadV1, b"", NONCE, None),
        Err("missing AEAD codec".to_owned())
    );
    let lane = AeadLaneCodec::new(ID, 0);
    assert_eq!(
        encode_payload_frame(PayloadCodec::AeadV1, b"", NONCE, Some(&lane)),
        Err("plaintext frame length must be > 0".to_owned())
    );
    assert_eq!(
        encode_payload_frame(PayloadCodec::RawV1, b"", NONCE, None),
        Err("plaintext frame length must be > 0".to_owned())
    );
    assert_eq!(
        decode_payload_frame(PayloadCodec::AeadV1, 5, NONCE, b"hello", None),
        Err("wire payload length mismatch: got 5 expected 21".to_owned())
    );
    assert_eq!(
        decode_payload_frame(PayloadCodec::AeadV1, 5, NONCE, &[0u8; 21], None),
        Err("missing AEAD codec".to_owned())
    );
    assert_eq!(
        decode_payload_frame(PayloadCodec::RawV1, 0, NONCE, b"", None),
        Err("plaintext frame length must be > 0".to_owned())
    );
}

#[test]
fn lane_keys_and_associated_data_are_derived_from_the_lane() {
    let mut hasher = blake3::Hasher::new();
    hasher.update(b"metra-app-aead-v1");
    hasher.update(uuid::Uuid::from_u128(ID).as_bytes());
    hasher.update(&7u32.to_be_bytes());
    let digest = hasher.finalize();
    let cipher = chacha20poly1305::ChaCha20Poly1305::new(chacha20poly1305::Key::from_slice(
        digest.as_bytes(),
    ));
    let mut aad = [0u8; 20];
    aad[..16].copy_from_slice(uuid::Uuid::from_u128(ID).as_bytes());
    aad[16..].copy_from_slice(&7u32.to_be_bytes());
    let expected = cipher
        .encrypt(
            chacha20poly1305::Nonce::from_slice(&NONCE),
            Payload {
                msg: b"payload",
                aad: &aad,
            },
        )
        .expect("sealed");

    let lane = AeadLaneCodec::new(ID, 7);
    assert_eq!(lane.seal(NONCE, b"payload"), Ok(expected.clone()));
    assert_eq!(lane.open(NONCE, &expected), Ok(b"payload".to_vec()));
}
