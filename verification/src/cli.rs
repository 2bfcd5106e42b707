//! What the command line of a client can say.

use crate::messages;
use crate::messages::CreateTransferRequest;
use vstd::prelude::*;
use vstd::string::*;

verus! {

/// How results are printed.
#[derive(Debug, Clone, Copy, PartialEq, Eq, Structural)]
pub enum OutputFormat {
    Text,
    Json,
}

/// The kind of network that a server is tuned for, as a client names it.
#[derive(Debug, Clone, Copy, PartialEq, Eq, Structural)]
pub enum QuicProfile {
    Lan,
    Wan,
    HighBdp,
}

impl QuicProfile {
    pub fn as_str(self) -> (r: &'static str)
        ensures
            r@ == match self {
                QuicProfile::Lan => "lan"@,
                QuicProfile::Wan => "wan"@,
                QuicProfile::HighBdp => "high-bdp"@,
            },
    {
        match self {
            QuicProfile::Lan => "lan",
            QuicProfile::Wan => "wan",
            QuicProfile::HighBdp => "high-bdp",
        }
    }
}

/// How a client spends processor time.
#[derive(Debug, Clone, Copy, PartialEq, Eq, Structural)]
pub enum RuntimeProfile {
    Balanced,
    Throughput,
    LowCpu,
}

impl RuntimeProfile {
    pub fn as_str(self) -> (r: &'static str)
        ensures
            r@ == match self {
                RuntimeProfile::Balanced => "balanced"@,
                RuntimeProfile::Throughput => "throughput"@,
                RuntimeProfile::LowCpu => "low-cpu"@,
            },
    {
        match self {
            RuntimeProfile::Balanced => "balanced",
            RuntimeProfile::Throughput => "throughput",
            RuntimeProfile::LowCpu => "low-cpu",
        }
    }
}

/// The arguments that register a transfer.
#[derive(Debug)]
pub struct CreateArgs {
    pub tenant_id: String,
    pub user_id: String,
    pub source_uri: String,
    pub destination_uri: String,
    pub file_name: String,
    pub file_size_bytes: u64,
    pub resume_chunk_size_bytes: u64,
    pub overwrite: bool,
    pub immutable_destination: bool,
}

/// The request that the arguments ask for.
pub open spec fn requested_transfer(args: CreateArgs) -> CreateTransferRequest {
    CreateTransferRequest {
        tenant_id: args.tenant_id,
        user_id: args.user_id,
        source_uri: args.source_uri,
        destination_uri: args.destination_uri,
        file_name: args.file_name,
        file_size_bytes: args.file_size_bytes,
        resume_chunk_size_bytes: args.resume_chunk_size_bytes,
        overwrite: args.overwrite,
        immutable_destination: args.immutable_destination,
    }
}

pub fn create_transfer_request(args: &CreateArgs) -> (r: Result<CreateTransferRequest, String>)
    ensures
        match r {
            Ok(request) => {
                &&& request == requested_transfer(*args)
                &&& messages::request_fault(request) is None
            },
            Err(message) => messages::request_fault(requested_transfer(*args)) matches Some(reason)
                && message@ == "invalid transfer request: "@ + reason,
        },
{
    let request = CreateTransferRequest {
        tenant_id: args.tenant_id.clone(),
        user_id: args.user_id.clone(),
        source_uri: args.source_uri.clone(),
        destination_uri: args.destination_uri.clone(),
        file_name: args.file_name.clone(),
        file_size_bytes: args.file_size_bytes,
        resume_chunk_size_bytes: args.resume_chunk_size_bytes,
        overwrite: args.overwrite,
        immutable_destination: args.immutable_destination,
    };
    match request.validate() {
        Ok(()) => Ok(request),
        Err(reason) => {
            let mut message = "invalid transfer request: ".to_owned();
            message.append(reason.as_str());
            Err(message)
        },
    }
}

/// The arguments of the interactive client.
#[derive(Debug)]
pub struct TuiArgs {
    pub bench_size_gib: u64,
    pub bench_lanes: u32,
    pub bench_io_chunk_bytes: usize,
    pub bench_no_disk: bool,
    pub bench_file_path: String,
    pub auto_runtime_report: Option<String>,
    pub runtime_policy: Option<String>,
}

impl Default for TuiArgs {
    fn default() -> (r: Self)
        ensures
            r.bench_size_gib == 1,
            r.bench_lanes == 2,
            r.bench_io_chunk_bytes == 8 * 1024 * 1024,
            r.bench_no_disk,
            r.bench_file_path@ == "/tmp/metra-tui-bench.bin"@,
            r.auto_runtime_report is None,
            r.runtime_policy is None,
    {
        TuiArgs {
            bench_size_gib: 1,
            bench_lanes: 2,
            bench_io_chunk_bytes: 8 * 1024 * 1024,
            bench_no_disk: true,
            bench_file_path: "/tmp/metra-tui-bench.bin".to_owned(),
            auto_runtime_report: None,
            runtime_policy: None,
        }
    }
}

/// A request says what the arguments say, in every field.
pub proof fn requests_say_what_the_arguments_say(args: CreateArgs)
    ensures
        ({
            let request = requested_transfer(args);
            &&& request.tenant_id == args.tenant_id
            &&& request.user_id == args.user_id
            &&& request.source_uri == args.source_uri
            &&& request.destination_uri == args.destination_uri
            &&& request.file_name == args.file_name
            &&& request.file_size_bytes == args.file_size_bytes
            &&& request.resume_chunk_size_bytes == args.resume_chunk_size_bytes
            &&& request.overwrite == args.overwrite
            &&& request.immutable_destination == args.immutable_destination
        }),
{
}

} // verus!
