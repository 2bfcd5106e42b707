use std::sync::{Arc, Mutex};

use metra::api::{
    create_transfer, get_transfer, health, internal_error, quic_certificate, sanitize_file_name,
    withdraw_transfer,
};
use metra::messages::{
    CreateTransferRequest, Timestamp, TransferStatus, TransferSummary, RESUME_CHUNK_SIZE_BYTES,
};
use metra::state::{AppState, BeginFault};
use uuid::Uuid;

const AT: Timestamp = Timestamp { secs: 100, nanos: 5 };
const LATER: Timestamp = Timestamp { secs: 200, nanos: 0 };

fn test_state() -> AppState<Mutex<()>> {
    AppState::new(
        "127.0.0.1:8443".to_owned(),
        "localhost".to_owned(),
        "lan".to_owned(),
        "cert".to_owned(),
        Vec::new(),
    )
}

fn request(file_name: &str) -> CreateTransferRequest {
    CreateTransferRequest {
        tenant_id: "tenant".to_owned(),
        user_id: "user".to_owned(),
        source_uri: "file:///a".to_owned(),
        destination_uri: "file:///b".to_owned(),
        file_name: file_name.to_owned(),
        file_size_bytes: 1_000,
        resume_chunk_size_bytes: RESUME_CHUNK_SIZE_BYTES,
        overwrite: true,
        immutable_destination: false,
    }
}

fn summary(transfer_id: u128, status: TransferStatus) -> TransferSummary {
    TransferSummary {
        transfer_id,
        tenant_id: "tenant".to_owned(),
        user_id: "user".to_owned(),
        source_uri: "file:///a".to_owned(),
        destination_uri: "file:///b".to_owned(),
        file_name: "f.bin".to_owned(),
        file_size_bytes: 1_000,
        overwrite: false,
        immutable_destination: false,
        status,
        resume_chunk_size_bytes: RESUME_CHUNK_SIZE_BYTES,
        bytes_transferred: 10,
        created_at: AT,
        updated_at: AT,
    }
}

#[test]
fn lane_writer_acquire_is_exclusive_per_lane() {
    let mut state = test_state();
    let transfer_id = Uuid::new_v4().as_u128();

    assert!(state.try_acquire_lane_writer(transfer_id, 0));
    assert!(!state.try_acquire_lane_writer(transfer_id, 0));

    state.release_lane_writer(transfer_id, 0);
    assert!(state.try_acquire_lane_writer(transfer_id, 0));
}

#[test]
fn lane_writer_allows_different_lanes_and_transfers() {
    let mut state = test_state();
    let transfer_a = Uuid::new_v4().as_u128();
    let transfer_b = Uuid::new_v4().as_u128();

    assert!(state.try_acquire_lane_writer(transfer_a, 0));
    assert!(state.try_acquire_lane_writer(transfer_a, 1));
    assert!(state.try_acquire_lane_writer(transfer_b, 0));
}

#[test]
fn per_transfer_locks_are_scoped_by_transfer_id() {
    let mut state = test_state();
    let transfer_a = Uuid::new_v4().as_u128();
    let transfer_b = Uuid::new_v4().as_u128();

    let finalize_a_1 = state.finalize_lock_for(transfer_a, Mutex::new(()));
    let finalize_a_2 = state.finalize_lock_for(transfer_a, Mutex::new(()));
    let finalize_b = state.finalize_lock_for(transfer_b, Mutex::new(()));
    assert!(Arc::ptr_eq(&finalize_a_1, &finalize_a_2));
    assert!(!Arc::ptr_eq(&finalize_a_1, &finalize_b));

    let checkpoint_a_1 = state.checkpoint_lock_for(transfer_a, Mutex::new(()));
    let checkpoint_a_2 = state.checkpoint_lock_for(transfer_a, Mutex::new(()));
    let checkpoint_b = state.checkpoint_lock_for(transfer_b, Mutex::new(()));
    assert!(Arc::ptr_eq(&checkpoint_a_1, &checkpoint_a_2));
    assert!(!Arc::ptr_eq(&checkpoint_a_1, &checkpoint_b));
}

#[test]
fn cleared_locks_are_made_anew() {
    let mut state = test_state();
    let finalize = state.finalize_lock_for(1, Mutex::new(()));
    let checkpoint = state.checkpoint_lock_for(1, Mutex::new(()));
    let other = state.finalize_lock_for(2, Mutex::new(()));
    state.clear_transfer_locks(1);
    assert!(!Arc::ptr_eq(&finalize, &state.finalize_lock_for(1, Mutex::new(()))));
    assert!(!Arc::ptr_eq(&checkpoint, &state.checkpoint_lock_for(1, Mutex::new(()))));
    assert!(Arc::ptr_eq(&other, &state.finalize_lock_for(2, Mutex::new(()))));
}

#[test]
fn persisted_transfers_are_loaded_and_the_last_of_one_id_counts() {
    let mut state: AppState<()> = AppState::new(
        String::new(),
        String::new(),
        String::new(),
        String::new(),
        vec![
            summary(1, TransferStatus::Queued),
            summary(2, TransferStatus::Running),
            summary(1, TransferStatus::Completed),
        ],
    );
    assert_eq!(state.transfer(1).expect("known").status, TransferStatus::Completed);
    assert_eq!(state.transfer(2).expect("known").status, TransferStatus::Running);
    assert!(state.transfer(3).is_none());
    assert_eq!(state.active_transfers(), 1);
    state.mark_transfer_started_if_absent(1, 5);
    state.mark_transfer_started_if_absent(1, 9);
    assert_eq!(state.take_transfer_started_at(1), Some(5));
    assert_eq!(state.take_transfer_started_at(1), None);
}

#[test]
fn progress_and_status_are_capped_at_the_file_size() {
    let mut state: AppState<()> = AppState::new(
        String::new(),
        String::new(),
        String::new(),
        String::new(),
        vec![summary(1, TransferStatus::Queued)],
    );
    state.record_progress(1, 400, LATER);
    let known = state.transfer(1).expect("known");
    assert_eq!(known.bytes_transferred, 400);
    assert_eq!(known.updated_at, LATER);
    assert_eq!(known.status, TransferStatus::Queued);
    state.record_progress(1, 4_000, LATER);
    assert_eq!(state.transfer(1).expect("known").bytes_transferred, 1_000);
    state.record_progress(2, 4_000, LATER);
    assert!(state.transfer(2).is_none());

    let change = state.set_transfer_status(1, TransferStatus::Running, 300, AT);
    assert!(!change.terminal);
    assert_eq!(change.snapshot.expect("snapshot").bytes_transferred, 300);
    let change = state.set_transfer_status(2, TransferStatus::Failed, 300, AT);
    assert!(!change.terminal);
    assert!(change.snapshot.is_none());

    let change = state.fail_running_transfer(1, LATER).expect("it was running");
    assert!(change.terminal);
    assert_eq!(change.snapshot.expect("snapshot").status, TransferStatus::Failed);
    assert!(state.fail_running_transfer(1, LATER).is_none());
    assert!(state.fail_running_transfer(2, LATER).is_none());
}

#[test]
fn a_terminal_status_drops_the_locks() {
    let mut state = test_state();
    let lock = state.finalize_lock_for(1, Mutex::new(()));
    state.conclude_status(1, false);
    assert!(Arc::ptr_eq(&lock, &state.finalize_lock_for(1, Mutex::new(()))));
    state.conclude_status(1, true);
    assert!(!Arc::ptr_eq(&lock, &state.finalize_lock_for(1, Mutex::new(()))));
}

#[test]
fn streams_begin_on_unchanged_transfers_only() {
    let mut state: AppState<()> = AppState::new(
        String::new(),
        String::new(),
        String::new(),
        String::new(),
        vec![summary(1, TransferStatus::Failed)],
    );
    assert_eq!(
        state.begin_stream(2, 1_000, RESUME_CHUNK_SIZE_BYTES, 0, LATER).err(),
        Some(BeginFault::UnknownTransfer { transfer_id: 2 })
    );
    assert_eq!(
        state.begin_stream(1, 999, RESUME_CHUNK_SIZE_BYTES, 0, LATER).err(),
        Some(BeginFault::MetadataChanged)
    );
    let snapshot = state
        .begin_stream(1, 1_000, RESUME_CHUNK_SIZE_BYTES, 77, LATER)
        .expect("begun");
    assert_eq!(snapshot.status, TransferStatus::Running);
    assert_eq!(snapshot.bytes_transferred, 77);
    assert_eq!(snapshot.updated_at, LATER);
    assert_eq!(snapshot.created_at, AT);
}

#[test]
fn transfers_are_registered_and_found() {
    let mut state = test_state();
    let accepted = create_transfer(&mut state, request("a b/ü.bin"), 7, AT).expect("accepted");
    assert_eq!(accepted.status, 201);
    assert_eq!(accepted.response.transfer_id, 7);
    assert_eq!(accepted.response.status, TransferStatus::Queued);
    assert_eq!(accepted.response.accepted_at, AT);
    assert_eq!(accepted.response.resume_chunk_size_bytes, RESUME_CHUNK_SIZE_BYTES);
    assert_eq!(accepted.summary.file_name, "a_b__.bin");
    let found = get_transfer(&state, 7).expect("found");
    assert_eq!(found.file_name, "a_b__.bin");
    assert_eq!(found.bytes_transferred, 0);
    assert_eq!(found.created_at, AT);
    assert!(found.overwrite);

    let missing = get_transfer(&state, 8).expect_err("unknown");
    assert_eq!(missing.status, 404);
    assert_eq!(missing.body.code, "not_found");
    assert_eq!(
        missing.body.message,
        format!("transfer {} was not found", Uuid::from_u128(8))
    );
}

#[test]
fn bad_requests_and_full_servers_are_answered() {
    let mut state = test_state();
    let mut bad = request("f");
    bad.tenant_id = "../".to_owned();
    let error = create_transfer(&mut state, bad, 1, AT).expect_err("refused");
    assert_eq!(error.status, 400);
    assert_eq!(error.body.code, "validation_error");
    assert_eq!(
        error.body.message,
        "tenant_id must match [a-zA-Z0-9_-] and be 1..=64 chars"
    );
    assert!(state.transfer(1).is_none());

    for id in 0..1_024u128 {
        create_transfer(&mut state, request("f"), id, AT).expect("accepted");
    }
    assert_eq!(state.active_transfers(), 1_024);
    let error = create_transfer(&mut state, request("f"), 5_000, AT).expect_err("full");
    assert_eq!(error.status, 429);
    assert_eq!(error.body.code, "transfer_limit_reached");
    assert_eq!(
        error.body.message,
        "server is at capacity (max 1024 active transfers)"
    );
    state.set_transfer_status(3, TransferStatus::Completed, 1_000, AT);
    assert!(create_transfer(&mut state, request("f"), 5_000, AT).is_ok());
}

#[test]
fn a_registration_that_is_not_stored_is_withdrawn() {
    let mut state = test_state();
    create_transfer(&mut state, request("f"), 7, AT).expect("accepted");
    let error = withdraw_transfer(&mut state, 7, "disk full");
    assert_eq!(error.status, 500);
    assert_eq!(error.body.code, "internal_error");
    assert_eq!(
        error.body.message,
        format!("failed persisting transfer {}: disk full", Uuid::from_u128(7))
    );
    assert!(state.transfer(7).is_none());
    let error = internal_error("boom".to_owned());
    assert_eq!((error.status, error.body.message.as_str()), (500, "boom"));
}

#[test]
fn file_names_are_sanitized() {
    assert_eq!(sanitize_file_name(""), "transfer.bin");
    assert_eq!(sanitize_file_name("report-1_final.PDF"), "report-1_final.PDF");
    assert_eq!(sanitize_file_name("../../etc/passwd"), ".._.._etc_passwd");
    assert_eq!(sanitize_file_name("naïve name"), "na_ve_name");
    let once = sanitize_file_name("a:b\\c");
    assert_eq!(sanitize_file_name(&once), once);
}

#[test]
fn the_server_describes_itself() {
    let state = test_state();
    let answer = health(&state, "0.1.0", AT);
    assert_eq!(answer.status, "ok");
    assert_eq!(answer.version, "0.1.0");
    assert_eq!(answer.quic_listener, "127.0.0.1:8443");
    assert_eq!(answer.quic_profile, "lan");
    assert_eq!(answer.timestamp, AT);
    let certificate = quic_certificate(&state);
    assert_eq!(certificate.server_name, "localhost");
    assert_eq!(certificate.quic_addr, "127.0.0.1:8443");
    assert_eq!(certificate.der_base64, "cert");
    assert_eq!(certificate.protocol_version, "metra-quic-v1");
}
