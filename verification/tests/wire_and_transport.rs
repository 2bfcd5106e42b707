use metra::certificate::{decode_certificate, encode_certificate};
use metra::cli::{
    create_transfer_request, CreateArgs, OutputFormat, QuicProfile, RuntimeProfile, TuiArgs,
};
use metra::rest::{health_url, quic_certificate_url, transfer_url, transfers_url};
use metra::telemetry::{memory_delta, signed_delta_u64, MemorySample};
use metra::transport::{client_bind_addr, client_settings, QuicTransportProfile};
use metra::wire::{decode_frame_len, encode_frame, QUIC_CONTROL_FRAME_MAX_BYTES};

#[test]
fn control_frames_round_trip() {
    let frame = encode_frame(b"{}").expect("frame");
    assert_eq!(frame, vec![0, 0, 0, 2, b'{', b'}']);
    assert_eq!(decode_frame_len([0, 0, 0, 2]), Ok(2));
    let largest = vec![7u8; QUIC_CONTROL_FRAME_MAX_BYTES];
    let frame = encode_frame(&largest).expect("frame");
    assert_eq!(&frame[..4], &[0, 1, 0, 0]);
    assert_eq!(decode_frame_len([0, 1, 0, 0]), Ok(65_536));
}

#[test]
fn control_frames_of_a_wrong_length_are_refused() {
    assert_eq!(
        decode_frame_len([0, 0, 0, 0]),
        Err("invalid frame length: 0".to_owned())
    );
    assert_eq!(
        decode_frame_len([0, 1, 0, 1]),
        Err("invalid frame length: 65537".to_owned())
    );
    assert_eq!(
        encode_frame(&vec![0u8; QUIC_CONTROL_FRAME_MAX_BYTES + 1]),
        Err("outbound frame too large: 65537".to_owned())
    );
}

#[test]
fn certificates_survive_their_text_form() {
    assert_eq!(encode_certificate(b"any carnal pleas"), "YW55IGNhcm5hbCBwbGVhcw==");
    for len in 0..10u8 {
        let der: Vec<u8> = (0..len).map(|b| b.wrapping_mul(77)).collect();
        assert_eq!(decode_certificate(&encode_certificate(&der)), Ok(der));
    }
    assert_eq!(
        decode_certificate("not base64!"),
        Err("failed decoding server certificate".to_owned())
    );
    assert_eq!(
        decode_certificate("YW5"),
        Err("failed decoding server certificate".to_owned())
    );
}

#[test]
fn transport_settings_of_each_profile() {
    let mib = 1024u64 * 1024;
    for (profile, name, keep_alive, idle, send, stream, receive) in [
        (QuicTransportProfile::Lan, "lan", 2, 120, 2048, 64, 512),
        (QuicTransportProfile::Wan, "wan", 5, 180, 1024, 32, 256),
        (QuicTransportProfile::HighBdp, "high-bdp", 2, 240, 4096, 128, 1024),
    ] {
        assert_eq!(profile.as_str(), name);
        let settings = profile.settings();
        assert_eq!(settings.max_concurrent_bidi_streams, 128);
        assert_eq!(settings.max_concurrent_uni_streams, 32);
        assert_eq!(settings.keep_alive_secs, keep_alive);
        assert_eq!(settings.max_idle_secs, idle);
        assert_eq!(settings.send_window, send * mib);
        assert_eq!(settings.stream_receive_window as u64, stream * mib);
        assert_eq!(settings.receive_window as u64, receive * mib);
    }
    let client = client_settings();
    assert_eq!(
        (client.keep_alive_secs, client.max_idle_secs, client.send_window),
        (2, 120, 2048 * mib)
    );
    assert_eq!(client_bind_addr(true), "0.0.0.0:0");
    assert_eq!(client_bind_addr(false), "[::]:0");
}

#[test]
fn profile_names() {
    assert_eq!(QuicProfile::Lan.as_str(), "lan");
    assert_eq!(QuicProfile::Wan.as_str(), "wan");
    assert_eq!(QuicProfile::HighBdp.as_str(), "high-bdp");
    assert_eq!(RuntimeProfile::Balanced.as_str(), "balanced");
    assert_eq!(RuntimeProfile::Throughput.as_str(), "throughput");
    assert_eq!(RuntimeProfile::LowCpu.as_str(), "low-cpu");
    assert_ne!(OutputFormat::Text, OutputFormat::Json);
}

#[test]
fn create_requests_are_validated() {
    let mut args = CreateArgs {
        tenant_id: "tenant-a".to_owned(),
        user_id: "user-a".to_owned(),
        source_uri: "file:///tmp/input.bin".to_owned(),
        destination_uri: "s3://bucket/output.bin".to_owned(),
        file_name: "input.bin".to_owned(),
        file_size_bytes: 322_122_547_200,
        resume_chunk_size_bytes: 1_048_576,
        overwrite: true,
        immutable_destination: false,
    };
    let request = create_transfer_request(&args).expect("request");
    assert_eq!(request.tenant_id, "tenant-a");
    assert_eq!(request.user_id, "user-a");
    assert_eq!(request.source_uri, "file:///tmp/input.bin");
    assert_eq!(request.destination_uri, "s3://bucket/output.bin");
    assert_eq!(request.file_name, "input.bin");
    assert_eq!(request.file_size_bytes, 322_122_547_200);
    assert!(request.overwrite);
    assert!(!request.immutable_destination);
    args.file_size_bytes = 0;
    assert_eq!(
        create_transfer_request(&args).err(),
        Some("invalid transfer request: file_size_bytes must be > 0".to_owned())
    );
}

#[test]
fn interactive_defaults() {
    let args = TuiArgs::default();
    assert_eq!(args.bench_size_gib, 1);
    assert_eq!(args.bench_lanes, 2);
    assert_eq!(args.bench_io_chunk_bytes, 8 * 1024 * 1024);
    assert!(args.bench_no_disk);
    assert_eq!(args.bench_file_path, "/tmp/metra-tui-bench.bin");
    assert!(args.auto_runtime_report.is_none());
    assert!(args.runtime_policy.is_none());
}

#[test]
fn control_plane_addresses() {
    let id = uuid::Uuid::from_u128(0xa1a2a3a4_b1b2_c1c2_d1d2_d3d4d5d6d7d8);
    assert_eq!(health_url("http://h:1"), "http://h:1/health");
    assert_eq!(transfers_url("http://h:1"), "http://h:1/v1/transfers");
    assert_eq!(quic_certificate_url("http://h:1"), "http://h:1/v1/quic/certificate");
    assert_eq!(
        transfer_url("http://h:1", id.as_u128()),
        "http://h:1/v1/transfers/a1a2a3a4-b1b2-c1c2-d1d2-d3d4d5d6d7d8"
    );
}

#[test]
fn memory_deltas_are_signed_and_clamped() {
    assert_eq!(signed_delta_u64(5, 3), 2);
    assert_eq!(signed_delta_u64(3, 5), -2);
    assert_eq!(signed_delta_u64(u64::MAX, 0), i64::MAX);
    assert_eq!(signed_delta_u64(0, u64::MAX), i64::MIN);
    let start = MemorySample {
        used_memory_bytes: 10,
        process_memory_bytes: Some(4),
        process_virtual_memory_bytes: None,
    };
    let end = MemorySample {
        used_memory_bytes: 7,
        process_memory_bytes: Some(9),
        process_virtual_memory_bytes: Some(1),
    };
    let delta = memory_delta(&start, &end);
    assert_eq!(delta.used_memory_bytes_delta, -3);
    assert_eq!(delta.process_memory_bytes_delta, Some(5));
    assert_eq!(delta.process_virtual_memory_bytes_delta, None);
}
