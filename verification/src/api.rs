//! The control plane: registering transfers, asking after them, and the answers to both.

use crate::ids;
use crate::ids::uuid_display;
use crate::messages;
use crate::messages::{
    CreateTransferRequest, CreateTransferResponse, ErrorResponse, HealthResponse,
    QuicCertificateResponse, Timestamp, TransferStatus, TransferSummary, QUIC_PROTOCOL_VERSION,
};
use crate::state::{AppState, StateView};
use crate::text;
use crate::text::{ascii_alphanumeric, chars_of, with_number};
use vstd::prelude::*;
use vstd::string::*;

verus! {

/// The largest body that the control plane reads.
pub const CONTROL_PLANE_BODY_MAX_BYTES: usize = 65_536;

/// How many transfers may be queued or running at once.
pub const MAX_TRACKED_TRANSFERS: usize = 1_024;

pub const STATUS_CREATED: u16 = 201;

pub const STATUS_BAD_REQUEST: u16 = 400;

pub const STATUS_NOT_FOUND: u16 = 404;

pub const STATUS_TOO_MANY_REQUESTS: u16 = 429;

pub const STATUS_INTERNAL_SERVER_ERROR: u16 = 500;

/// An error answer: the HTTP status and the body.
#[derive(Debug)]
pub struct ApiError {
    pub status: u16,
    pub body: ErrorResponse,
}

impl ApiError {
    /// Whether the answer has this status, code and message.
    pub open spec fn says(self, status: u16, code: Seq<char>, message: Seq<char>) -> bool {
        &&& self.status == status
        &&& self.body.code@ == code
        &&& self.body.message@ == message
    }
}

/// A registered transfer: the answer to the client, and what is to be stored.
#[derive(Debug)]
pub struct AcceptedTransfer {
    pub status: u16,
    pub response: CreateTransferResponse,
    pub summary: TransferSummary,
}

/// Whether a character stays as it is in a stored file name.
pub open spec fn is_file_name_char(c: char) -> bool {
    text::is_ascii_alphanumeric(c) || c == '.' || c == '-' || c == '_'
}

/// The name that a file is stored under: every other character is replaced by an underscore, and
/// an empty name by `transfer.bin`.
pub open spec fn sanitized(file_name: Seq<char>) -> Seq<char> {
    if file_name.len() == 0 {
        "transfer.bin"@
    } else {
        file_name.map_values(
            |c: char|
                if is_file_name_char(c) {
                    c
                } else {
                    '_'
                },
        )
    }
}

pub fn sanitize_file_name(file_name: &str) -> (r: String)
    ensures
        r@ == sanitized(file_name@),
{
    let chars = chars_of(file_name);
    if chars.len() == 0 {
        return "transfer.bin".to_owned();
    }
    let mut output = "".to_owned();
    proof {
        reveal_strlit("");
    }
    for i in 0..chars.len()
        invariant
            chars@ == file_name@,
            chars@.len() > 0,
            output@ == sanitized(file_name@).take(i as int),
    {
        let c = chars[i];
        if ascii_alphanumeric(c) || c == '.' || c == '-' || c == '_' {
            output.push(c);
        } else {
            output.push('_');
        }
        assert(output@ =~= sanitized(file_name@).take(i + 1));
    }
    assert(sanitized(file_name@).take(chars@.len() as int) =~= sanitized(file_name@));
    output
}

/// A stored file name is never empty, holds no path separator and nothing but safe characters,
/// and is stored under itself.
pub proof fn sanitized_names_are_safe(file_name: Seq<char>)
    ensures
        sanitized(file_name).len() > 0,
        forall|i: int|
            0 <= i < sanitized(file_name).len() ==> is_file_name_char(
                #[trigger] sanitized(file_name)[i],
            ),
        !sanitized(file_name).contains('/'),
        !sanitized(file_name).contains('\\'),
        sanitized(sanitized(file_name)) == sanitized(file_name),
        file_name.len() > 0 ==> sanitized(file_name).len() == file_name.len(),
{
    reveal_strlit("transfer.bin");
    assert(forall|i: int|
        0 <= i < sanitized(file_name).len() ==> is_file_name_char(
            #[trigger] sanitized(file_name)[i],
        ));
    assert(sanitized(sanitized(file_name)) =~= sanitized(file_name));
}

/// An internal error with this message.
pub fn internal_error(message: String) -> (r: ApiError)
    ensures
        r.says(STATUS_INTERNAL_SERVER_ERROR, "internal_error"@, message@),
{
    ApiError {
        status: STATUS_INTERNAL_SERVER_ERROR,
        body: ErrorResponse { code: "internal_error".to_owned(), message },
    }
}

/// The summary of a transfer that was just accepted.
pub open spec fn is_accepted_summary(
    summary: TransferSummary,
    payload: CreateTransferRequest,
    transfer_id: u128,
    now: Timestamp,
) -> bool {
    &&& summary.file_name@ == sanitized(payload.file_name@)
    &&& summary == (TransferSummary {
        transfer_id,
        tenant_id: payload.tenant_id,
        user_id: payload.user_id,
        source_uri: payload.source_uri,
        destination_uri: payload.destination_uri,
        file_name: summary.file_name,
        file_size_bytes: payload.file_size_bytes,
        overwrite: payload.overwrite,
        immutable_destination: payload.immutable_destination,
        status: TransferStatus::Queued,
        resume_chunk_size_bytes: payload.resume_chunk_size_bytes,
        bytes_transferred: 0,
        created_at: now,
        updated_at: now,
    })
}

/// Registers a transfer under a new identifier. The summary is to be stored; where that fails, the
/// registration is taken back with `withdraw_transfer`.
pub fn create_transfer<L>(
    state: &mut AppState<L>,
    payload: CreateTransferRequest,
    transfer_id: u128,
    now: Timestamp,
) -> (r: Result<AcceptedTransfer, ApiError>)
    requires
        old(state).wf(),
    ensures
        final(state).wf(),
        match r {
            Ok(accepted) => {
                &&& messages::request_fault(payload) is None
                &&& old(state)@.active_ids().len() < MAX_TRACKED_TRANSFERS
                &&& is_accepted_summary(accepted.summary, payload, transfer_id, now)
                &&& final(state)@ == old(state)@.with_transfer(accepted.summary)
                &&& accepted.status == STATUS_CREATED
                &&& accepted.response == (CreateTransferResponse {
                    transfer_id,
                    status: TransferStatus::Queued,
                    accepted_at: now,
                    resume_chunk_size_bytes: payload.resume_chunk_size_bytes,
                })
            },
            Err(error) => {
                &&& final(state)@ == old(state)@
                &&& match messages::request_fault(payload) {
                    Some(reason) => error.says(STATUS_BAD_REQUEST, "validation_error"@, reason),
                    None => {
                        &&& old(state)@.active_ids().len() >= MAX_TRACKED_TRANSFERS
                        &&& error.says(
                            STATUS_TOO_MANY_REQUESTS,
                            "transfer_limit_reached"@,
                            "server is at capacity (max "@ + text::decimal(
                                MAX_TRACKED_TRANSFERS as nat,
                            ) + " active transfers)"@,
                        )
                    },
                }
            },
        },
{
    match payload.validate() {
        Ok(()) => {},
        Err(message) => {
            return Err(
                ApiError {
                    status: STATUS_BAD_REQUEST,
                    body: ErrorResponse { code: "validation_error".to_owned(), message },
                },
            );
        },
    }
    if state.active_transfers() >= MAX_TRACKED_TRANSFERS {
        let mut message = with_number(
            "server is at capacity (max ",
            MAX_TRACKED_TRANSFERS as u64,
        );
        message.append(" active transfers)");
        return Err(
            ApiError {
                status: STATUS_TOO_MANY_REQUESTS,
                body: ErrorResponse { code: "transfer_limit_reached".to_owned(), message },
            },
        );
    }
    let file_name = sanitize_file_name(payload.file_name.as_str());
    let summary = TransferSummary {
        transfer_id,
        tenant_id: payload.tenant_id,
        user_id: payload.user_id,
        source_uri: payload.source_uri,
        destination_uri: payload.destination_uri,
        file_name,
        file_size_bytes: payload.file_size_bytes,
        overwrite: payload.overwrite,
        immutable_destination: payload.immutable_destination,
        status: TransferStatus::Queued,
        resume_chunk_size_bytes: payload.resume_chunk_size_bytes,
        bytes_transferred: 0,
        created_at: now,
        updated_at: now,
    };
    state.put_transfer(summary.clone());
    Ok(
        AcceptedTransfer {
            status: STATUS_CREATED,
            response: CreateTransferResponse {
                transfer_id,
                status: TransferStatus::Queued,
                accepted_at: now,
                resume_chunk_size_bytes: payload.resume_chunk_size_bytes,
            },
            summary,
        },
    )
}

/// Takes back the registration of a transfer that could not be stored.
pub fn withdraw_transfer<L>(state: &mut AppState<L>, transfer_id: u128, reason: &str) -> (r:
    ApiError)
    requires
        old(state).wf(),
    ensures
        final(state).wf(),
        final(state)@ == (StateView {
            transfers: old(state)@.transfers.remove(transfer_id),
            ..old(state)@
        }),
        r.says(
            STATUS_INTERNAL_SERVER_ERROR,
            "internal_error"@,
            "failed persisting transfer "@ + ids::id_text(transfer_id) + ": "@ + reason@,
        ),
{
    state.drop_transfer(transfer_id);
    let mut message = "failed persisting transfer ".to_owned();
    message.append(uuid_display(transfer_id).as_str());
    message.append(": ");
    message.append(reason);
    internal_error(message)
}

/// A registration that is taken back leaves the registry as it was, where the identifier was new.
pub proof fn withdrawing_undoes_registering<L>(state: StateView<L>, summary: TransferSummary)
    requires
        !state.transfers.contains_key(summary.transfer_id),
    ensures
        (StateView {
            transfers: state.with_transfer(summary).transfers.remove(summary.transfer_id),
            ..state.with_transfer(summary)
        }) == state,
{
    assert(state.with_transfer(summary).transfers.remove(summary.transfer_id) =~= state.transfers);
}

/// What is known of a transfer.
pub fn get_transfer<L>(state: &AppState<L>, transfer_id: u128) -> (r: Result<
    TransferSummary,
    ApiError,
>)
    requires
        state.wf(),
    ensures
        match r {
            Ok(summary) => state@.transfer(transfer_id) == Some(summary),
            Err(error) => {
                &&& state@.transfer(transfer_id) is None
                &&& error.says(
                    STATUS_NOT_FOUND,
                    "not_found"@,
                    "transfer "@ + ids::id_text(transfer_id) + " was not found"@,
                )
            },
        },
{
    match state.transfer(transfer_id) {
        Some(summary) => Ok(summary),
        None => {
            let mut message = "transfer ".to_owned();
            message.append(uuid_display(transfer_id).as_str());
            message.append(" was not found");
            Err(
                ApiError {
                    status: STATUS_NOT_FOUND,
                    body: ErrorResponse { code: "not_found".to_owned(), message },
                },
            )
        },
    }
}

/// A transfer that was accepted is found again, as it was accepted.
pub proof fn accepted_transfers_are_found<L>(state: StateView<L>, summary: TransferSummary)
    ensures
        state.with_transfer(summary).transfer(summary.transfer_id) == Some(summary),
        forall|id: u128|
            id != summary.transfer_id ==> #[trigger] state.with_transfer(summary).transfer(id)
                == state.transfer(id),
{
}

/// The answer to a health probe.
pub fn health<L>(state: &AppState<L>, version: &str, now: Timestamp) -> (r: HealthResponse)
    ensures
        r.status@ == "ok"@,
        r.version@ == version@,
        r.quic_listener == state@.quic_addr,
        r.quic_profile == state@.quic_profile,
        r.timestamp == now,
{
    HealthResponse {
        status: "ok".to_owned(),
        version: version.to_owned(),
        quic_listener: state.quic_addr(),
        quic_profile: state.quic_profile(),
        timestamp: now,
    }
}

/// What a client needs to open a QUIC connection to this server.
pub fn quic_certificate<L>(state: &AppState<L>) -> (r: QuicCertificateResponse)
    ensures
        r.server_name == state@.quic_server_name,
        r.quic_addr == state@.quic_addr,
        r.der_base64 == state@.quic_cert_der_b64,
        r.protocol_version@ == QUIC_PROTOCOL_VERSION@,
{
    QuicCertificateResponse {
        server_name: state.quic_server_name(),
        quic_addr: state.quic_addr(),
        der_base64: state.quic_cert_der_b64(),
        protocol_version: QUIC_PROTOCOL_VERSION.to_owned(),
    }
}

/// A stored file name keeps every letter and digit of ASCII, every dot, hyphen and underscore, in its
/// place and as it is; every other character becomes one underscore. Only an empty name becomes
/// another name.
pub proof fn stored_names_keep_their_safe_characters(file_name: Seq<char>, i: int)
    requires
        0 <= i < file_name.len(),
    ensures
        sanitized(file_name).len() == file_name.len(),
        ({
            let c = file_name[i];
            let safe = 'a' <= c <= 'z' || 'A' <= c <= 'Z' || '0' <= c <= '9' || c == '.' || c == '-'
                || c == '_';
            &&& safe ==> sanitized(file_name)[i] == c
            &&& !safe ==> sanitized(file_name)[i] == '_'
        }),
{
}

/// A transfer that was just accepted is queued with nothing transferred, and holds what was asked for;
/// only its file name may differ.
pub proof fn accepted_transfers_start_queued(
    summary: TransferSummary,
    payload: CreateTransferRequest,
    transfer_id: u128,
    now: Timestamp,
)
    requires
        is_accepted_summary(summary, payload, transfer_id, now),
    ensures
        summary.transfer_id == transfer_id,
        summary.status == TransferStatus::Queued,
        summary.bytes_transferred == 0,
        summary.created_at == now,
        summary.updated_at == now,
        summary.tenant_id == payload.tenant_id,
        summary.user_id == payload.user_id,
        summary.source_uri == payload.source_uri,
        summary.destination_uri == payload.destination_uri,
        summary.file_size_bytes == payload.file_size_bytes,
        summary.resume_chunk_size_bytes == payload.resume_chunk_size_bytes,
        summary.overwrite == payload.overwrite,
        summary.immutable_destination == payload.immutable_destination,
        summary.file_name@ == sanitized(payload.file_name@),
{
}

/// An error answer says its status, its code and its message, and no two of them can be mixed up.
pub proof fn error_answers_say_one_thing(
    error: ApiError,
    status: u16,
    code: Seq<char>,
    message: Seq<char>,
)
    ensures
        error.says(status, code, message) <==> {
            &&& status == error.status
            &&& code == error.body.code@
            &&& message == error.body.message@
        },
{
}

} // verus!
