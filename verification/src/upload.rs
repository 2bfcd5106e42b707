//! Which lane streams the server admits, and what an admitted stream is about.

use crate::codec;
use crate::codec::{normalize_receive_write_pipeline_depth, PayloadCodec};
use crate::ids;
use crate::ids::uuid_display;
use crate::messages;
use crate::messages::{
    is_valid_storage_id_segment, QuicTransferOpen, TransferSummary, TRANSFER_LANES_MAX,
};
use crate::state::{AppState, StateView};
use crate::text;
use crate::text::{joined, push_decimal, starts_with, with_number, with_two_numbers};
use vstd::prelude::*;
use vstd::string::*;

verus! {

/// Whether what is sent to this destination is received and dropped.
pub open spec fn is_null_sink(uri: Seq<char>) -> bool {
    "null://"@.is_prefix_of(uri) || "memory://"@.is_prefix_of(uri) || "mem://"@.is_prefix_of(uri)
}

pub fn is_null_sink_uri(uri: &str) -> (r: bool)
    ensures
        r == is_null_sink(uri@),
{
    starts_with(uri, "null://") || starts_with(uri, "memory://") || starts_with(uri, "mem://")
}

/// Why a lane stream is not admitted.
#[derive(Debug)]
pub enum OpenFault {
    TooManyLanes { total_lanes: u32 },
    LaneOutOfRange { lane_index: u32, total_lanes: u32 },
    InvalidRange { range_start: u64, range_end: u64, file_size: u64 },
    UnsupportedCodec { codec: String, transfer_id: u128, lane_index: u32 },
    UnknownTransfer { transfer_id: u128 },
    FileSizeMismatch { open_size: u64, transfer_size: u64 },
    ResumeChunkMismatch { open_chunk: u64, transfer_chunk: u64 },
    InvalidTenant { tenant_id: String },
    InvalidUser { user_id: String },
    LaneBusy { lane_index: u32, transfer_id: u128 },
}

impl OpenFault {
    /// The fault in words.
    pub open spec fn text(self) -> Seq<char> {
        match self {
            OpenFault::TooManyLanes { total_lanes } => "total_lanes "@ + text::decimal(
                total_lanes as nat,
            ) + " exceeds max "@ + text::decimal(TRANSFER_LANES_MAX as nat),
            OpenFault::LaneOutOfRange { lane_index, total_lanes } => "invalid lane index "@
                + text::decimal(lane_index as nat) + " of "@ + text::decimal(total_lanes as nat),
            OpenFault::InvalidRange { range_start, range_end, file_size } => "invalid range "@
                + text::decimal(range_start as nat) + ".."@ + text::decimal(range_end as nat)
                + " for file size "@ + text::decimal(file_size as nat),
            OpenFault::UnsupportedCodec { codec, transfer_id, lane_index } =>
                "unsupported payload codec '"@ + codec@ + "' for transfer "@ + ids::id_text(
                    transfer_id,
                ) + " lane "@ + text::decimal(lane_index as nat),
            OpenFault::UnknownTransfer { transfer_id } => "unknown transfer_id "@ + ids::id_text(
                transfer_id,
            ),
            OpenFault::FileSizeMismatch { open_size, transfer_size } =>
                "file_size mismatch: open="@ + text::decimal(open_size as nat) + " transfer="@
                    + text::decimal(transfer_size as nat),
            OpenFault::ResumeChunkMismatch { open_chunk, transfer_chunk } =>
                "resume_chunk_size mismatch: open="@ + text::decimal(open_chunk as nat)
                    + " transfer="@ + text::decimal(transfer_chunk as nat),
            OpenFault::InvalidTenant { tenant_id } => "transfer has invalid tenant_id '"@
                + tenant_id@ + "'"@,
            OpenFault::InvalidUser { user_id } => "transfer has invalid user_id '"@ + user_id@
                + "'"@,
            OpenFault::LaneBusy { lane_index, transfer_id } => "lane "@ + text::decimal(
                lane_index as nat,
            ) + " for transfer "@ + ids::id_text(transfer_id) + " already has an active writer"@,
        }
    }

    pub fn message(&self) -> (r: String)
        ensures
            r@ == self.text(),
    {
        match self {
            OpenFault::TooManyLanes { total_lanes } => with_two_numbers(
                "total_lanes ",
                *total_lanes as u64,
                " exceeds max ",
                TRANSFER_LANES_MAX as u64,
            ),
            OpenFault::LaneOutOfRange { lane_index, total_lanes } => with_two_numbers(
                "invalid lane index ",
                *lane_index as u64,
                " of ",
                *total_lanes as u64,
            ),
            OpenFault::InvalidRange { range_start, range_end, file_size } => {
                let mut message = with_two_numbers("invalid range ", *range_start, "..", *range_end);
                message.append(" for file size ");
                push_decimal(&mut message, *file_size);
                message
            },
            OpenFault::UnsupportedCodec { codec, transfer_id, lane_index } => {
                let mut message = "unsupported payload codec '".to_owned();
                message.append(codec.as_str());
                message.append("' for transfer ");
                message.append(uuid_display(*transfer_id).as_str());
                message.append(" lane ");
                push_decimal(&mut message, *lane_index as u64);
                message
            },
            OpenFault::UnknownTransfer { transfer_id } => {
                let mut message = "unknown transfer_id ".to_owned();
                message.append(uuid_display(*transfer_id).as_str());
                message
            },
            OpenFault::FileSizeMismatch { open_size, transfer_size } => with_two_numbers(
                "file_size mismatch: open=",
                *open_size,
                " transfer=",
                *transfer_size,
            ),
            OpenFault::ResumeChunkMismatch { open_chunk, transfer_chunk } => with_two_numbers(
                "resume_chunk_size mismatch: open=",
                *open_chunk,
                " transfer=",
                *transfer_chunk,
            ),
            OpenFault::InvalidTenant { tenant_id } => {
                let mut message = "transfer has invalid tenant_id '".to_owned();
                message.append(tenant_id.as_str());
                message.append("'");
                message
            },
            OpenFault::InvalidUser { user_id } => {
                let mut message = "transfer has invalid user_id '".to_owned();
                message.append(user_id.as_str());
                message.append("'");
                message
            },
            OpenFault::LaneBusy { lane_index, transfer_id } => {
                let mut message = with_number("lane ", *lane_index as u64);
                message.append(" for transfer ");
                message.append(uuid_display(*transfer_id).as_str());
                message.append(" already has an active writer");
                message
            },
        }
    }
}

/// The number of lanes that a stream announces; none stands for one.
pub open spec fn announced_lanes(open: QuicTransferOpen) -> u32 {
    if open.total_lanes == 0 {
        1u32
    } else {
        open.total_lanes
    }
}

/// The end of the range that a stream announces; none stands for the end of the file.
pub open spec fn announced_end(open: QuicTransferOpen) -> u64 {
    if open.range_end_exclusive == 0 {
        open.file_size_bytes
    } else {
        open.range_end_exclusive
    }
}

/// Whether a stream carries part of a file, so that a checkpoint is kept for it.
pub open spec fn is_striped(open: QuicTransferOpen) -> bool {
    announced_lanes(open) > 1 || open.range_start != 0 || announced_end(open)
        != open.file_size_bytes
}

/// The first reason not to admit a stream.
pub open spec fn open_fault<L>(state: StateView<L>, open: QuicTransferOpen) -> Option<OpenFault> {
    let total_lanes = announced_lanes(open);
    let range_end = announced_end(open);
    if total_lanes > TRANSFER_LANES_MAX {
        Some(OpenFault::TooManyLanes { total_lanes })
    } else if open.lane_index >= total_lanes {
        Some(OpenFault::LaneOutOfRange { lane_index: open.lane_index, total_lanes })
    } else if open.range_start >= range_end || range_end > open.file_size_bytes {
        Some(
            OpenFault::InvalidRange {
                range_start: open.range_start,
                range_end,
                file_size: open.file_size_bytes,
            },
        )
    } else if PayloadCodec::named(open.payload_codec@) is None {
        Some(
            OpenFault::UnsupportedCodec {
                codec: open.payload_codec,
                transfer_id: open.transfer_id,
                lane_index: open.lane_index,
            },
        )
    } else {
        match state.transfer(open.transfer_id) {
            None => Some(OpenFault::UnknownTransfer { transfer_id: open.transfer_id }),
            Some(summary) => if open.file_size_bytes != summary.file_size_bytes {
                Some(
                    OpenFault::FileSizeMismatch {
                        open_size: open.file_size_bytes,
                        transfer_size: summary.file_size_bytes,
                    },
                )
            } else if open.resume_chunk_size_bytes != summary.resume_chunk_size_bytes {
                Some(
                    OpenFault::ResumeChunkMismatch {
                        open_chunk: open.resume_chunk_size_bytes,
                        transfer_chunk: summary.resume_chunk_size_bytes,
                    },
                )
            } else if !messages::is_storage_id(summary.tenant_id@) {
                Some(OpenFault::InvalidTenant { tenant_id: summary.tenant_id })
            } else if !messages::is_storage_id(summary.user_id@) {
                Some(OpenFault::InvalidUser { user_id: summary.user_id })
            } else if state.lane_writers.contains((open.transfer_id, open.lane_index)) {
                Some(
                    OpenFault::LaneBusy {
                        lane_index: open.lane_index,
                        transfer_id: open.transfer_id,
                    },
                )
            } else {
                None
            },
        }
    }
}

/// What an admitted stream is about. Its files lie in the directory of its tenant and user.
#[derive(Debug)]
pub struct StreamPlan {
    pub transfer_id: u128,
    pub lane_index: u32,
    pub total_lanes: u32,
    pub range_start: u64,
    pub range_end_exclusive: u64,
    pub striped: bool,
    pub discard_payload: bool,
    pub payload_codec: PayloadCodec,
    pub receive_write_pipeline_depth: usize,
    pub file_size_bytes: u64,
    pub resume_chunk_size_bytes: u64,
    pub bytes_transferred: u64,
    pub tenant_id: String,
    pub user_id: String,
    pub staging_name: String,
    pub final_name: String,
    pub checkpoint_name: String,
}

/// The name of the file that the payload of a transfer is gathered in.
pub open spec fn staging_name_text(transfer_id: u128) -> Seq<char> {
    ids::id_text(transfer_id) + ".part"@
}

/// The name of the checkpoint file of a transfer.
pub open spec fn checkpoint_name_text(transfer_id: u128) -> Seq<char> {
    ids::id_text(transfer_id) + ".part.meta.json"@
}

/// The name of the file that the payload of a transfer is gathered in.
pub fn staging_file_name(transfer_id: u128) -> (r: String)
    ensures
        r@ == staging_name_text(transfer_id),
{
    let mut name = uuid_display(transfer_id);
    name.append(".part");
    name
}

/// The name of the checkpoint file of a transfer.
pub fn checkpoint_file_name(transfer_id: u128) -> (r: String)
    ensures
        r@ == checkpoint_name_text(transfer_id),
{
    let mut name = uuid_display(transfer_id);
    name.append(".part.meta.json");
    name
}

/// The name of the file that a checkpoint is written to before it takes the place of the old one.
pub fn checkpoint_temp_name(checkpoint_name: &str, unique: u128) -> (r: String)
    ensures
        r@ == "."@ + checkpoint_name@ + ".tmp-"@ + ids::id_text(unique),
{
    let mut name = joined(".", checkpoint_name);
    name.append(".tmp-");
    name.append(uuid_display(unique).as_str());
    name
}

impl StreamPlan {
    /// The lane and its range are in bounds, and only a striped stream carries less than the file.
    pub open spec fn wf(self) -> bool {
        &&& self.lane_index < self.total_lanes <= TRANSFER_LANES_MAX
        &&& self.range_start < self.range_end_exclusive <= self.file_size_bytes
        &&& !self.striped ==> {
            &&& self.total_lanes == 1
            &&& self.range_start == 0
            &&& self.range_end_exclusive == self.file_size_bytes
        }
    }

    /// Whether this is the plan of an admitted stream on a known transfer.
    pub open spec fn answers(self, open: QuicTransferOpen, summary: TransferSummary) -> bool {
        &&& self.transfer_id == open.transfer_id
        &&& self.lane_index == open.lane_index
        &&& self.total_lanes == announced_lanes(open)
        &&& self.range_start == open.range_start
        &&& self.range_end_exclusive == announced_end(open)
        &&& self.striped == is_striped(open)
        &&& self.discard_payload == is_null_sink(summary.destination_uri@)
        &&& PayloadCodec::named(open.payload_codec@) == Some(self.payload_codec)
        &&& self.receive_write_pipeline_depth == codec::pipeline_depth(
            open.receive_write_pipeline_depth,
        )
        &&& self.file_size_bytes == summary.file_size_bytes
        &&& self.resume_chunk_size_bytes == summary.resume_chunk_size_bytes
        &&& self.bytes_transferred == summary.bytes_transferred
        &&& self.tenant_id == summary.tenant_id
        &&& self.user_id == summary.user_id
        &&& self.staging_name@ == staging_name_text(open.transfer_id)
        &&& self.final_name == summary.file_name
        &&& self.checkpoint_name@ == checkpoint_name_text(open.transfer_id)
    }
}

/// Admits a lane stream, or says why not. An admitted stream holds the write lease of its lane.
pub fn admit_stream<L>(state: &mut AppState<L>, open: &QuicTransferOpen) -> (r: Result<
    StreamPlan,
    OpenFault,
>)
    requires
        old(state).wf(),
    ensures
        final(state).wf(),
        match r {
            Ok(plan) => {
                &&& open_fault(old(state)@, *open) is None
                &&& plan.wf()
                &&& plan.answers(*open, old(state)@.transfers[open.transfer_id])
                &&& final(state)@ == (StateView {
                    lane_writers: old(state)@.lane_writers.insert(
                        (open.transfer_id, open.lane_index),
                    ),
                    ..old(state)@
                })
            },
            Err(fault) => {
                &&& open_fault(old(state)@, *open) == Some(fault)
                &&& final(state)@ == old(state)@
            },
        },
{
    let total_lanes: u32 = if open.total_lanes == 0 {
        1
    } else {
        open.total_lanes
    };
    if total_lanes > TRANSFER_LANES_MAX {
        return Err(OpenFault::TooManyLanes { total_lanes });
    }
    if open.lane_index >= total_lanes {
        return Err(OpenFault::LaneOutOfRange { lane_index: open.lane_index, total_lanes });
    }
    let range_end: u64 = if open.range_end_exclusive == 0 {
        open.file_size_bytes
    } else {
        open.range_end_exclusive
    };
    if open.range_start >= range_end || range_end > open.file_size_bytes {
        return Err(
            OpenFault::InvalidRange {
                range_start: open.range_start,
                range_end,
                file_size: open.file_size_bytes,
            },
        );
    }
    let striped = total_lanes > 1 || open.range_start != 0 || range_end != open.file_size_bytes;
    let payload_codec = match PayloadCodec::from_wire(open.payload_codec.as_str()) {
        Some(payload_codec) => payload_codec,
        None => {
            return Err(
                OpenFault::UnsupportedCodec {
                    codec: open.payload_codec.clone(),
                    transfer_id: open.transfer_id,
                    lane_index: open.lane_index,
                },
            );
        },
    };
    let summary = match state.transfer(open.transfer_id) {
        Some(summary) => summary,
        None => {
            return Err(OpenFault::UnknownTransfer { transfer_id: open.transfer_id });
        },
    };
    if open.file_size_bytes != summary.file_size_bytes {
        return Err(
            OpenFault::FileSizeMismatch {
                open_size: open.file_size_bytes,
                transfer_size: summary.file_size_bytes,
            },
        );
    }
    if open.resume_chunk_size_bytes != summary.resume_chunk_size_bytes {
        return Err(
            OpenFault::ResumeChunkMismatch {
                open_chunk: open.resume_chunk_size_bytes,
                transfer_chunk: summary.resume_chunk_size_bytes,
            },
        );
    }
    if !is_valid_storage_id_segment(summary.tenant_id.as_str()) {
        return Err(OpenFault::InvalidTenant { tenant_id: summary.tenant_id });
    }
    if !is_valid_storage_id_segment(summary.user_id.as_str()) {
        return Err(OpenFault::InvalidUser { user_id: summary.user_id });
    }
    if !state.try_acquire_lane_writer(open.transfer_id, open.lane_index) {
        proof {
            assert(state@.lane_writers =~= old(state)@.lane_writers);
        }
        return Err(
            OpenFault::LaneBusy { lane_index: open.lane_index, transfer_id: open.transfer_id },
        );
    }
    Ok(
        StreamPlan {
            transfer_id: open.transfer_id,
            lane_index: open.lane_index,
            total_lanes,
            range_start: open.range_start,
            range_end_exclusive: range_end,
            striped,
            discard_payload: is_null_sink_uri(summary.destination_uri.as_str()),
            payload_codec,
            receive_write_pipeline_depth: normalize_receive_write_pipeline_depth(
                open.receive_write_pipeline_depth,
            ),
            file_size_bytes: summary.file_size_bytes,
            resume_chunk_size_bytes: summary.resume_chunk_size_bytes,
            bytes_transferred: summary.bytes_transferred,
            tenant_id: summary.tenant_id,
            user_id: summary.user_id,
            staging_name: staging_file_name(open.transfer_id),
            final_name: summary.file_name,
            checkpoint_name: checkpoint_file_name(open.transfer_id),
        },
    )
}

/// The files of two transfers never share a name, and no staging file is named like a checkpoint.
pub proof fn transfer_files_do_not_collide(a: u128, b: u128)
    ensures
        staging_name_text(a) == staging_name_text(b) ==> a == b,
        checkpoint_name_text(a) == checkpoint_name_text(b) ==> a == b,
        staging_name_text(a) != checkpoint_name_text(b),
{
    reveal_strlit(".part");
    reveal_strlit(".part.meta.json");
    ids::id_texts_are_distinct(a, b);
    ids::id_texts_are_distinct(b, a);
    assert(staging_name_text(a).take(36) =~= ids::id_text(a));
    assert(staging_name_text(b).take(36) =~= ids::id_text(b));
    assert(checkpoint_name_text(a).take(36) =~= ids::id_text(a));
    assert(checkpoint_name_text(b).take(36) =~= ids::id_text(b));
    assert(staging_name_text(a).len() != checkpoint_name_text(b).len());
}

/// While a stream holds its lane, no other stream is admitted to it; once the lane is given back, the
/// same stream is admitted again.
pub proof fn a_lane_admits_one_stream_at_a_time<L>(state: StateView<L>, open: QuicTransferOpen)
    requires
        open_fault(state, open) is None,
    ensures
        ({
            let lane = (open.transfer_id, open.lane_index);
            let busy = StateView { lane_writers: state.lane_writers.insert(lane), ..state };
            let free = StateView { lane_writers: busy.lane_writers.remove(lane), ..busy };
            &&& open_fault(busy, open) == Some(
                OpenFault::LaneBusy {
                    lane_index: open.lane_index,
                    transfer_id: open.transfer_id,
                },
            )
            &&& open_fault(free, open) is None
        }),
{
}

/// A transfer that is not registered is refused, whatever the stream says of itself.
pub proof fn unknown_transfers_are_refused<L>(state: StateView<L>, open: QuicTransferOpen)
    requires
        state.transfer(open.transfer_id) is None,
    ensures
        open_fault(state, open) is Some,
{
}

/// A payload is dropped exactly where the scheme of its destination, the text before the first "://",
/// is null, memory or mem.
pub proof fn only_null_and_memory_schemes_are_dropped(uri: Seq<char>, at: int)
    requires
        0 <= at <= uri.len() - 3,
        uri.subrange(at, at + 3) == seq![':', '/', '/'],
        forall|k: int| 0 <= k < at ==> #[trigger] uri.subrange(k, k + 3) != seq![':', '/', '/'],
    ensures
        is_null_sink(uri) <==> {
            ||| uri.take(at) == seq!['n', 'u', 'l', 'l']
            ||| uri.take(at) == seq!['m', 'e', 'm', 'o', 'r', 'y']
            ||| uri.take(at) == seq!['m', 'e', 'm']
        },
{
    reveal_strlit("null://");
    reveal_strlit("memory://");
    reveal_strlit("mem://");
    let separator = seq![':', '/', '/'];
    let here = uri.subrange(at, at + 3);
    assert(here[0] == uri[at] && here[1] == uri[at + 1] && here[2] == uri[at + 2]);
    if "null://"@.is_prefix_of(uri) {
        sink_prefix_names_the_scheme(uri, "null://"@, 4, at);
        assert(uri.take(at) =~= seq!['n', 'u', 'l', 'l']);
    }
    if "memory://"@.is_prefix_of(uri) {
        sink_prefix_names_the_scheme(uri, "memory://"@, 6, at);
        assert(uri.take(at) =~= seq!['m', 'e', 'm', 'o', 'r', 'y']);
    }
    if "mem://"@.is_prefix_of(uri) {
        sink_prefix_names_the_scheme(uri, "mem://"@, 3, at);
        assert(uri.take(at) =~= seq!['m', 'e', 'm']);
    }
    assert(uri.take(at + 3) =~= uri.take(at) + separator);
    if uri.take(at) == seq!['n', 'u', 'l', 'l'] {
        assert("null://"@ =~= seq!['n', 'u', 'l', 'l'] + separator);
    }
    if uri.take(at) == seq!['m', 'e', 'm', 'o', 'r', 'y'] {
        assert("memory://"@ =~= seq!['m', 'e', 'm', 'o', 'r', 'y'] + separator);
    }
    if uri.take(at) == seq!['m', 'e', 'm'] {
        assert("mem://"@ =~= seq!['m', 'e', 'm'] + separator);
    }
}

/// Where a destination opens with letters and "://", that is its first "://".
proof fn sink_prefix_names_the_scheme(uri: Seq<char>, prefix: Seq<char>, n: int, at: int)
    requires
        0 <= n,
        prefix.len() == n + 3,
        prefix.is_prefix_of(uri),
        forall|i: int| 0 <= i < n ==> #[trigger] prefix[i] != ':',
        prefix[n] == ':' && prefix[n + 1] == '/' && prefix[n + 2] == '/',
        0 <= at <= uri.len() - 3,
        uri.subrange(at, at + 3) == seq![':', '/', '/'],
        forall|k: int| 0 <= k < at ==> #[trigger] uri.subrange(k, k + 3) != seq![':', '/', '/'],
    ensures
        at == n,
        forall|i: int| 0 <= i < n ==> #[trigger] uri[i] == prefix[i],
{
    let opening = uri.take(prefix.len() as int);
    assert(prefix =~= opening);
    assert(forall|i: int| 0 <= i < prefix.len() ==> #[trigger] uri[i] == opening[i]);
    assert(uri.subrange(n, n + 3) =~= seq![':', '/', '/']);
    if at < n {
        assert(uri.subrange(at, at + 3)[0] == uri[at]);
        assert(uri[at] == prefix[at]);
    }
}

/// A destination that has no "://" in it, such as a path, is never dropped.
pub proof fn destinations_without_a_scheme_are_kept(uri: Seq<char>)
    requires
        forall|k: int|
            0 <= k <= uri.len() - 3 ==> #[trigger] uri.subrange(k, k + 3) != seq![':', '/', '/'],
    ensures
        !is_null_sink(uri),
{
    reveal_strlit("null://");
    reveal_strlit("memory://");
    reveal_strlit("mem://");
    if "null://"@.is_prefix_of(uri) {
        sink_prefix_has_a_separator(uri, "null://"@, 4);
    }
    if "memory://"@.is_prefix_of(uri) {
        sink_prefix_has_a_separator(uri, "memory://"@, 6);
    }
    if "mem://"@.is_prefix_of(uri) {
        sink_prefix_has_a_separator(uri, "mem://"@, 3);
    }
}

/// A text that opens with letters and "://" has a "://" in it.
proof fn sink_prefix_has_a_separator(uri: Seq<char>, prefix: Seq<char>, n: int)
    requires
        0 <= n,
        prefix.len() == n + 3,
        prefix.is_prefix_of(uri),
        prefix[n] == ':' && prefix[n + 1] == '/' && prefix[n + 2] == '/',
    ensures
        exists|k: int|
            0 <= k <= uri.len() - 3 && #[trigger] uri.subrange(k, k + 3) == seq![':', '/', '/'],
{
    let opening = uri.take(prefix.len() as int);
    assert(prefix =~= opening);
    assert(forall|i: int| 0 <= i < prefix.len() ==> #[trigger] uri[i] == opening[i]);
    assert(uri.subrange(n, n + 3) =~= seq![':', '/', '/']);
}

/// A stream is admitted exactly where it keeps every rule: it announces a lane below the number of
/// lanes, of which there are at most 64, and a range inside the file that is not empty; its codec is
/// known; its transfer is registered with the same file size and chunk size and under ids that can
/// name directories; and no other stream writes its lane. Zero lanes stand for one, and a range that
/// ends at zero for one that ends with the file.
pub proof fn admitted_streams_keep_every_rule<L>(state: StateView<L>, open: QuicTransferOpen)
    ensures
        open_fault(state, open) is None <==> {
            let lanes = vstd::math::max(open.total_lanes as int, 1);
            let end = if open.range_end_exclusive > 0 {
                open.range_end_exclusive
            } else {
                open.file_size_bytes
            };
            let known = state.transfers[open.transfer_id];
            &&& open.total_lanes <= 64
            &&& open.lane_index < lanes
            &&& open.range_start < end <= open.file_size_bytes
            &&& PayloadCodec::named(open.payload_codec@) is Some
            &&& state.transfers.contains_key(open.transfer_id)
            &&& known.file_size_bytes == open.file_size_bytes
            &&& known.resume_chunk_size_bytes == open.resume_chunk_size_bytes
            &&& messages::is_storage_id(known.tenant_id@)
            &&& messages::is_storage_id(known.user_id@)
            &&& !state.lane_writers.contains((open.transfer_id, open.lane_index))
        },
{
}

/// What a refused stream is told follows the order of the rules: the number of lanes, the lane, the
/// range, the codec, the transfer, its sizes, its ids and at last the lane being written. What comes
/// earlier in this order is told whatever comes later.
pub proof fn refusals_name_the_first_broken_rule<L>(state: StateView<L>, open: QuicTransferOpen)
    ensures
        ({
            let fault = open_fault(state, open);
            let lanes = vstd::math::max(open.total_lanes as int, 1);
            let end = if open.range_end_exclusive > 0 {
                open.range_end_exclusive
            } else {
                open.file_size_bytes
            };
            let known = state.transfers[open.transfer_id];
            let lanes_ok = open.total_lanes <= 64;
            let lane_ok = lanes_ok && open.lane_index < lanes;
            let range_ok = lane_ok && open.range_start < end <= open.file_size_bytes;
            let codec_ok = range_ok && PayloadCodec::named(open.payload_codec@) is Some;
            let known_ok = codec_ok && state.transfers.contains_key(open.transfer_id);
            let size_ok = known_ok && known.file_size_bytes == open.file_size_bytes;
            let chunk_ok = size_ok && known.resume_chunk_size_bytes == open.resume_chunk_size_bytes;
            let tenant_ok = chunk_ok && messages::is_storage_id(known.tenant_id@);
            let user_ok = tenant_ok && messages::is_storage_id(known.user_id@);
            &&& (fault is Some && fault->0 is TooManyLanes) <==> !lanes_ok
            &&& (fault is Some && fault->0 is LaneOutOfRange) <==> lanes_ok && !lane_ok
            &&& (fault is Some && fault->0 is InvalidRange) <==> lane_ok && !range_ok
            &&& (fault is Some && fault->0 is UnsupportedCodec) <==> range_ok && !codec_ok
            &&& (fault is Some && fault->0 is UnknownTransfer) <==> codec_ok && !known_ok
            &&& (fault is Some && fault->0 is FileSizeMismatch) <==> known_ok && !size_ok
            &&& (fault is Some && fault->0 is ResumeChunkMismatch) <==> size_ok && !chunk_ok
            &&& (fault is Some && fault->0 is InvalidTenant) <==> chunk_ok && !tenant_ok
            &&& (fault is Some && fault->0 is InvalidUser) <==> tenant_ok && !user_ok
            &&& (fault is Some && fault->0 is LaneBusy) <==> user_ok
                && state.lane_writers.contains((open.transfer_id, open.lane_index))
        }),
{
}

/// A refusal says what was wrong with the stream: the values that it announced, and those that were
/// known of its transfer.
pub proof fn refusals_say_what_was_wrong<L>(state: StateView<L>, open: QuicTransferOpen)
    requires
        open_fault(state, open) is Some,
    ensures
        ({
            let lanes = vstd::math::max(open.total_lanes as int, 1);
            let end = if open.range_end_exclusive > 0 {
                open.range_end_exclusive
            } else {
                open.file_size_bytes
            };
            let known = state.transfers[open.transfer_id];
            match open_fault(state, open)->0 {
                OpenFault::TooManyLanes { total_lanes } => total_lanes == lanes,
                OpenFault::LaneOutOfRange { lane_index, total_lanes } => lane_index
                    == open.lane_index && total_lanes == lanes,
                OpenFault::InvalidRange { range_start, range_end, file_size } => range_start
                    == open.range_start && range_end == end && file_size == open.file_size_bytes,
                OpenFault::UnsupportedCodec { codec, transfer_id, lane_index } => codec
                    == open.payload_codec && transfer_id == open.transfer_id && lane_index
                    == open.lane_index,
                OpenFault::UnknownTransfer { transfer_id } => transfer_id == open.transfer_id,
                OpenFault::FileSizeMismatch { open_size, transfer_size } => open_size
                    == open.file_size_bytes && transfer_size == known.file_size_bytes,
                OpenFault::ResumeChunkMismatch { open_chunk, transfer_chunk } => open_chunk
                    == open.resume_chunk_size_bytes && transfer_chunk
                    == known.resume_chunk_size_bytes,
                OpenFault::InvalidTenant { tenant_id } => tenant_id == known.tenant_id,
                OpenFault::InvalidUser { user_id } => user_id == known.user_id,
                OpenFault::LaneBusy { lane_index, transfer_id } => lane_index == open.lane_index
                    && transfer_id == open.transfer_id,
            }
        }),
{
}

/// The plan of an admitted stream holds what the stream announced and what is known of its transfer.
/// It is striped exactly where it is one of several lanes or carries less than the file, and it is
/// written with as many buffers as were asked for, within one and 32.
pub proof fn plans_hold_what_was_announced<L>(
    state: StateView<L>,
    open: QuicTransferOpen,
    plan: StreamPlan,
)
    requires
        open_fault(state, open) is None,
        plan.answers(open, state.transfers[open.transfer_id]),
    ensures
        ({
            let known = state.transfers[open.transfer_id];
            &&& plan.transfer_id == open.transfer_id
            &&& plan.lane_index == open.lane_index
            &&& plan.total_lanes == vstd::math::max(open.total_lanes as int, 1)
            &&& plan.range_start == open.range_start
            &&& open.range_end_exclusive > 0 ==> plan.range_end_exclusive
                == open.range_end_exclusive
            &&& open.range_end_exclusive == 0 ==> plan.range_end_exclusive == known.file_size_bytes
            &&& plan.striped <==> plan.total_lanes > 1 || plan.range_end_exclusive
                - plan.range_start < known.file_size_bytes
            &&& 1 <= plan.receive_write_pipeline_depth <= 32
            &&& 1 <= open.receive_write_pipeline_depth <= 32 ==> plan.receive_write_pipeline_depth
                == open.receive_write_pipeline_depth
            &&& plan.file_size_bytes == known.file_size_bytes
            &&& plan.resume_chunk_size_bytes == known.resume_chunk_size_bytes
            &&& plan.bytes_transferred == known.bytes_transferred
            &&& plan.tenant_id == known.tenant_id
            &&& plan.user_id == known.user_id
            &&& plan.final_name == known.file_name
            &&& plan.payload_codec.wire_name() == open.payload_codec@
            &&& plan.discard_payload == is_null_sink(known.destination_uri@)
            &&& plan.staging_name@ == ids::id_text(open.transfer_id) + seq!['.', 'p', 'a', 'r', 't']
            &&& plan.staging_name@.is_prefix_of(plan.checkpoint_name@)
        }),
{
    codec::codec_names_are_inverse(plan.payload_codec, open.payload_codec@);
    reveal_strlit(".part");
    reveal_strlit(".part.meta.json");
    assert(".part"@ =~= seq!['.', 'p', 'a', 'r', 't']);
    assert(plan.staging_name@ =~= plan.checkpoint_name@.take(plan.staging_name@.len() as int));
}

} // verus!
