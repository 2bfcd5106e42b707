//! The messages of the control plane and of the QUIC lane streams, and the rules on a request.

use crate::text;
use crate::text::{chars_of, is_blank, with_number};
use vstd::prelude::*;
use vstd::string::*;

verus! {

pub const RESUME_CHUNK_SIZE_BYTES: u64 = 1_048_576;

pub const TRANSFER_FILE_SIZE_MAX_BYTES: u64 = 8_796_093_022_208;

pub const TRANSFER_LANES_MAX: u32 = 64;

pub const STORAGE_ID_SEGMENT_MAX_LEN: usize = 64;

pub const QUIC_PROTOCOL_VERSION: &'static str = "metra-quic-v1";

/// A point in time: seconds since the Unix epoch and nanoseconds within the second.
#[derive(Debug, Clone, Copy, PartialEq, Eq, Structural)]
pub struct Timestamp {
    pub secs: i64,
    pub nanos: u32,
}

impl Timestamp {
    /// Whether `self` comes after `other`.
    pub open spec fn is_after(self, other: Timestamp) -> bool {
        self.secs > other.secs || (self.secs == other.secs && self.nanos > other.nanos)
    }

    pub fn after(self, other: Timestamp) -> (r: bool)
        ensures
            r == self.is_after(other),
    {
        self.secs > other.secs || (self.secs == other.secs && self.nanos > other.nanos)
    }
}

/// The state of a transfer.
#[derive(Debug, Clone, Copy, PartialEq, Eq, Structural)]
pub enum TransferStatus {
    Queued,
    Running,
    Completed,
    Failed,
}

/// The answer to a health probe.
#[derive(Debug)]
pub struct HealthResponse {
    pub status: String,
    pub version: String,
    pub quic_listener: String,
    pub quic_profile: String,
    pub timestamp: Timestamp,
}

impl Clone for HealthResponse {
    fn clone(&self) -> (r: Self)
        ensures
            r == *self,
    {
        HealthResponse {
            status: self.status.clone(),
            version: self.version.clone(),
            quic_listener: self.quic_listener.clone(),
            quic_profile: self.quic_profile.clone(),
            timestamp: self.timestamp,
        }
    }
}

/// A request to register a transfer.
#[derive(Debug)]
pub struct CreateTransferRequest {
    pub tenant_id: String,
    pub user_id: String,
    pub source_uri: String,
    pub destination_uri: String,
    pub file_name: String,
    pub file_size_bytes: u64,
    pub resume_chunk_size_bytes: u64,
    pub overwrite: bool,
    pub immutable_destination: bool,
}

impl Clone for CreateTransferRequest {
    fn clone(&self) -> (r: Self)
        ensures
            r == *self,
    {
        CreateTransferRequest {
            tenant_id: self.tenant_id.clone(),
            user_id: self.user_id.clone(),
            source_uri: self.source_uri.clone(),
            destination_uri: self.destination_uri.clone(),
            file_name: self.file_name.clone(),
            file_size_bytes: self.file_size_bytes,
            resume_chunk_size_bytes: self.resume_chunk_size_bytes,
            overwrite: self.overwrite,
            immutable_destination: self.immutable_destination,
        }
    }
}

/// The answer to an accepted registration.
#[derive(Debug, Clone, Copy, PartialEq, Eq, Structural)]
pub struct CreateTransferResponse {
    pub transfer_id: u128,
    pub status: TransferStatus,
    pub accepted_at: Timestamp,
    pub resume_chunk_size_bytes: u64,
}

/// What the server keeps of a transfer.
#[derive(Debug)]
pub struct TransferSummary {
    pub transfer_id: u128,
    pub tenant_id: String,
    pub user_id: String,
    pub source_uri: String,
    pub destination_uri: String,
    pub file_name: String,
    pub file_size_bytes: u64,
    pub overwrite: bool,
    pub immutable_destination: bool,
    pub status: TransferStatus,
    pub resume_chunk_size_bytes: u64,
    pub bytes_transferred: u64,
    pub created_at: Timestamp,
    pub updated_at: Timestamp,
}

impl Clone for TransferSummary {
    fn clone(&self) -> (r: Self)
        ensures
            r == *self,
    {
        TransferSummary {
            transfer_id: self.transfer_id,
            tenant_id: self.tenant_id.clone(),
            user_id: self.user_id.clone(),
            source_uri: self.source_uri.clone(),
            destination_uri: self.destination_uri.clone(),
            file_name: self.file_name.clone(),
            file_size_bytes: self.file_size_bytes,
            overwrite: self.overwrite,
            immutable_destination: self.immutable_destination,
            status: self.status,
            resume_chunk_size_bytes: self.resume_chunk_size_bytes,
            bytes_transferred: self.bytes_transferred,
            created_at: self.created_at,
            updated_at: self.updated_at,
        }
    }
}

/// The body of an error answer.
#[derive(Debug)]
pub struct ErrorResponse {
    pub code: String,
    pub message: String,
}

impl Clone for ErrorResponse {
    fn clone(&self) -> (r: Self)
        ensures
            r == *self,
    {
        ErrorResponse {
            code: self.code.clone(),
            message: self.message.clone(),
        }
    }
}

/// What a client needs to open a QUIC connection.
#[derive(Debug)]
pub struct QuicCertificateResponse {
    pub server_name: String,
    pub quic_addr: String,
    pub der_base64: String,
    pub protocol_version: String,
}

impl Clone for QuicCertificateResponse {
    fn clone(&self) -> (r: Self)
        ensures
            r == *self,
    {
        QuicCertificateResponse {
            server_name: self.server_name.clone(),
            quic_addr: self.quic_addr.clone(),
            der_base64: self.der_base64.clone(),
            protocol_version: self.protocol_version.clone(),
        }
    }
}

/// The frame that opens one lane stream. A `range_end_exclusive` of zero stands for the end of the file.
#[derive(Debug)]
pub struct QuicTransferOpen {
    pub transfer_id: u128,
    pub file_size_bytes: u64,
    pub file_name: String,
    pub resume_chunk_size_bytes: u64,
    pub lane_index: u32,
    pub total_lanes: u32,
    pub range_start: u64,
    pub range_end_exclusive: u64,
    pub payload_codec: String,
    pub receive_write_pipeline_depth: usize,
}

impl Clone for QuicTransferOpen {
    fn clone(&self) -> (r: Self)
        ensures
            r == *self,
    {
        QuicTransferOpen {
            transfer_id: self.transfer_id,
            file_size_bytes: self.file_size_bytes,
            file_name: self.file_name.clone(),
            resume_chunk_size_bytes: self.resume_chunk_size_bytes,
            lane_index: self.lane_index,
            total_lanes: self.total_lanes,
            range_start: self.range_start,
            range_end_exclusive: self.range_end_exclusive,
            payload_codec: self.payload_codec.clone(),
            receive_write_pipeline_depth: self.receive_write_pipeline_depth,
        }
    }
}

/// The answer to an accepted lane stream.
#[derive(Debug)]
pub struct QuicTransferOpenAck {
    pub ok: bool,
    pub resume_offset_bytes: u64,
    pub message: String,
    pub payload_codec: String,
    pub receive_write_pipeline_depth: usize,
}

impl Clone for QuicTransferOpenAck {
    fn clone(&self) -> (r: Self)
        ensures
            r == *self,
    {
        QuicTransferOpenAck {
            ok: self.ok,
            resume_offset_bytes: self.resume_offset_bytes,
            message: self.message.clone(),
            payload_codec: self.payload_codec.clone(),
            receive_write_pipeline_depth: self.receive_write_pipeline_depth,
        }
    }
}

/// The answer to a finished lane stream.
#[derive(Debug)]
pub struct QuicTransferCompleteAck {
    pub ok: bool,
    pub status: TransferStatus,
    pub bytes_received: u64,
    pub message: String,
    pub updated_at: Timestamp,
}

impl Clone for QuicTransferCompleteAck {
    fn clone(&self) -> (r: Self)
        ensures
            r == *self,
    {
        QuicTransferCompleteAck {
            ok: self.ok,
            status: self.status,
            bytes_received: self.bytes_received,
            message: self.message.clone(),
            updated_at: self.updated_at,
        }
    }
}

/// The resume chunk size of a request that names none.
pub fn default_resume_chunk_size() -> (r: u64)
    ensures
        r == RESUME_CHUNK_SIZE_BYTES,
{
    RESUME_CHUNK_SIZE_BYTES
}

/// The lane count of a lane stream that names none.
pub fn default_total_lanes() -> (r: u32)
    ensures
        r == 1,
{
    1
}

/// Whether a character may stand in a storage id: an ASCII letter, an ASCII digit, `-` or `_`.
pub open spec fn is_storage_id_char(c: char) -> bool {
    text::is_ascii_alphanumeric(c) || c == '-' || c == '_'
}

/// Whether a tenant or user id can name a directory.
pub open spec fn is_storage_id(value: Seq<char>) -> bool {
    &&& 0 < value.len() <= STORAGE_ID_SEGMENT_MAX_LEN
    &&& forall|i: int| 0 <= i < value.len() ==> is_storage_id_char(#[trigger] value[i])
}

pub fn is_valid_storage_id_segment(value: &str) -> (r: bool)
    ensures
        r == is_storage_id(value@),
{
    let chars = chars_of(value);
    if chars.len() == 0 || chars.len() > STORAGE_ID_SEGMENT_MAX_LEN {
        return false;
    }
    for i in 0..chars.len()
        invariant
            chars@ == value@,
            forall|j: int| 0 <= j < i ==> is_storage_id_char(#[trigger] value@[j]),
    {
        let c = chars[i];
        if !(text::ascii_alphanumeric(c) || c == '-' || c == '_') {
            assert(!is_storage_id_char(value@[i as int]));
            return false;
        }
    }
    true
}

/// A storage id holds no path separator, no dot and no blank, so it names one directory below
/// its parent.
pub proof fn storage_id_is_one_path_segment(value: Seq<char>)
    requires
        is_storage_id(value),
    ensures
        value.len() > 0,
        !value.contains('/'),
        !value.contains('\\'),
        !value.contains('.'),
        !text::is_blank_text(value),
{
    assert(is_storage_id_char(value[0]));
}

/// The first rule that a request breaks, in words.
pub open spec fn request_fault(request: CreateTransferRequest) -> Option<Seq<char>> {
    if !is_storage_id(request.tenant_id@) {
        Some(
            "tenant_id must match [a-zA-Z0-9_-] and be 1..="@ + text::decimal(
                STORAGE_ID_SEGMENT_MAX_LEN as nat,
            ) + " chars"@,
        )
    } else if !is_storage_id(request.user_id@) {
        Some(
            "user_id must match [a-zA-Z0-9_-] and be 1..="@ + text::decimal(
                STORAGE_ID_SEGMENT_MAX_LEN as nat,
            ) + " chars"@,
        )
    } else if text::is_blank_text(request.source_uri@) {
        Some("source_uri must not be empty"@)
    } else if text::is_blank_text(request.destination_uri@) {
        Some("destination_uri must not be empty"@)
    } else if text::is_blank_text(request.file_name@) {
        Some("file_name must not be empty"@)
    } else if request.file_size_bytes == 0 {
        Some("file_size_bytes must be > 0"@)
    } else if request.file_size_bytes > TRANSFER_FILE_SIZE_MAX_BYTES {
        Some("file_size_bytes must be <= "@ + text::decimal(TRANSFER_FILE_SIZE_MAX_BYTES as nat))
    } else if request.resume_chunk_size_bytes != RESUME_CHUNK_SIZE_BYTES {
        Some(
            "resume_chunk_size_bytes must be exactly "@ + text::decimal(
                RESUME_CHUNK_SIZE_BYTES as nat,
            ) + " bytes (1 MiB) in v1"@,
        )
    } else {
        None
    }
}

impl CreateTransferRequest {
    pub fn validate(&self) -> (r: Result<(), String>)
        ensures
            match r {
                Ok(()) => {
                    &&& request_fault(*self) is None
                    &&& 1 <= self.file_size_bytes <= TRANSFER_FILE_SIZE_MAX_BYTES
                    &&& self.resume_chunk_size_bytes == RESUME_CHUNK_SIZE_BYTES
                },
                Err(message) => request_fault(*self) == Some(message@),
            },
    {
        if !is_valid_storage_id_segment(self.tenant_id.as_str()) {
            let mut message = with_number(
                "tenant_id must match [a-zA-Z0-9_-] and be 1..=",
                STORAGE_ID_SEGMENT_MAX_LEN as u64,
            );
            message.append(" chars");
            return Err(message);
        }
        if !is_valid_storage_id_segment(self.user_id.as_str()) {
            let mut message = with_number(
                "user_id must match [a-zA-Z0-9_-] and be 1..=",
                STORAGE_ID_SEGMENT_MAX_LEN as u64,
            );
            message.append(" chars");
            return Err(message);
        }
        if is_blank(self.source_uri.as_str()) {
            return Err("source_uri must not be empty".to_owned());
        }
        if is_blank(self.destination_uri.as_str()) {
            return Err("destination_uri must not be empty".to_owned());
        }
        if is_blank(self.file_name.as_str()) {
            return Err("file_name must not be empty".to_owned());
        }
        if self.file_size_bytes == 0 {
            return Err("file_size_bytes must be > 0".to_owned());
        }
        if self.file_size_bytes > TRANSFER_FILE_SIZE_MAX_BYTES {
            return Err(with_number("file_size_bytes must be <= ", TRANSFER_FILE_SIZE_MAX_BYTES));
        }
        if self.resume_chunk_size_bytes != RESUME_CHUNK_SIZE_BYTES {
            let mut message = with_number(
                "resume_chunk_size_bytes must be exactly ",
                RESUME_CHUNK_SIZE_BYTES,
            );
            message.append(" bytes (1 MiB) in v1");
            return Err(message);
        }
        Ok(())
    }
}

/// Of two instants in different seconds the one in the later second comes after the other; in one
/// second, the one with more nanoseconds does. No instant comes after itself.
pub proof fn instants_are_ordered_by_seconds_first(a: Timestamp, b: Timestamp)
    ensures
        a.secs != b.secs ==> (a.is_after(b) <==> a.secs > b.secs),
        a.secs == b.secs ==> (a.is_after(b) <==> a.nanos > b.nanos),
        !(a.is_after(b) && b.is_after(a)),
        a.is_after(b) || b.is_after(a) || a == b,
{
}

/// Of two instants the one with more nanoseconds since the epoch comes after the other.
pub proof fn instants_follow_the_clock(a: Timestamp, b: Timestamp)
    requires
        a.nanos < 1_000_000_000,
        b.nanos < 1_000_000_000,
    ensures
        a.is_after(b) <==> a.secs * 1_000_000_000 + a.nanos > b.secs * 1_000_000_000 + b.nanos,
{
}

/// A storage id has between 1 and 64 characters, each a letter or a digit of ASCII, a hyphen or an
/// underscore; and every such text is one.
pub proof fn storage_ids_are_short_and_plain(value: Seq<char>)
    ensures
        is_storage_id(value) <==> 1 <= value.len() <= 64 && forall|i: int|
            0 <= i < value.len() ==> {
                ||| 'a' <= #[trigger] value[i] <= 'z'
                ||| 'A' <= value[i] <= 'Z'
                ||| '0' <= value[i] <= '9'
                ||| value[i] == '-'
                ||| value[i] == '_'
            },
{
    if is_storage_id(value) {
        assert forall|i: int| 0 <= i < value.len() implies {
            ||| 'a' <= #[trigger] value[i] <= 'z'
            ||| 'A' <= value[i] <= 'Z'
            ||| '0' <= value[i] <= '9'
            ||| value[i] == '-'
            ||| value[i] == '_'
        } by {
            assert(is_storage_id_char(value[i]));
        }
    }
}

/// A request is accepted exactly where it keeps every rule: its ids can name directories, its source,
/// destination and file name hold more than white space, its file has at least one byte and at most
/// 8 TiB, and its resume chunks have 1 MiB. Whether files may be replaced is never in the way.
pub proof fn accepted_requests_keep_every_rule(request: CreateTransferRequest)
    ensures
        request_fault(request) is None <==> {
            &&& is_storage_id(request.tenant_id@)
            &&& is_storage_id(request.user_id@)
            &&& !text::is_blank_text(request.source_uri@)
            &&& !text::is_blank_text(request.destination_uri@)
            &&& !text::is_blank_text(request.file_name@)
            &&& 1 <= request.file_size_bytes <= 8 * 1024 * 1024 * 1024 * 1024
            &&& request.resume_chunk_size_bytes == 1024 * 1024
        },
{
}

/// What is said of a request is said of its first broken rule: two requests that break the same rule
/// first are told the same, whatever else they hold.
pub proof fn requests_are_told_their_first_broken_rule(
    a: CreateTransferRequest,
    b: CreateTransferRequest,
)
    ensures
        ({
            let same = request_fault(a) == request_fault(b);
            let tenants = is_storage_id(a.tenant_id@) && is_storage_id(b.tenant_id@);
            let users = tenants && is_storage_id(a.user_id@) && is_storage_id(b.user_id@);
            let sources = users && !text::is_blank_text(a.source_uri@) && !text::is_blank_text(
                b.source_uri@,
            );
            let destinations = sources && !text::is_blank_text(a.destination_uri@)
                && !text::is_blank_text(b.destination_uri@);
            let names = destinations && !text::is_blank_text(a.file_name@) && !text::is_blank_text(
                b.file_name@,
            );
            let sizes = names && 0 < a.file_size_bytes <= TRANSFER_FILE_SIZE_MAX_BYTES && 0
                < b.file_size_bytes <= TRANSFER_FILE_SIZE_MAX_BYTES;
            &&& !is_storage_id(a.tenant_id@) && !is_storage_id(b.tenant_id@) ==> same
            &&& tenants && !is_storage_id(a.user_id@) && !is_storage_id(b.user_id@) ==> same
            &&& users && text::is_blank_text(a.source_uri@) && text::is_blank_text(b.source_uri@)
                ==> same
            &&& sources && text::is_blank_text(a.destination_uri@) && text::is_blank_text(
                b.destination_uri@,
            ) ==> same
            &&& destinations && text::is_blank_text(a.file_name@) && text::is_blank_text(
                b.file_name@,
            ) ==> same
            &&& names && a.file_size_bytes == b.file_size_bytes && !(0 < a.file_size_bytes
                <= TRANSFER_FILE_SIZE_MAX_BYTES) ==> same
            &&& sizes && a.resume_chunk_size_bytes != RESUME_CHUNK_SIZE_BYTES
                && b.resume_chunk_size_bytes != RESUME_CHUNK_SIZE_BYTES ==> same
        }),
{
}

} // verus!
