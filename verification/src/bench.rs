//! Benchmarks: what is run, in which order, and what is made of the results.

use crate::messages;
use crate::messages::{CreateTransferRequest, RESUME_CHUNK_SIZE_BYTES};
use crate::send::{PayloadSource, SendTransferReport};
use crate::text;
use crate::text::{joined, push_decimal, trim_end_slashes, with_number};
use crate::throughput;
use crate::throughput::{highest, Throughput};
use crate::upload;
use vstd::prelude::*;
use vstd::string::*;

verus! {

/// The bytes of a gibibyte.
pub const GIB: u64 = 1_073_741_824;

/// One benchmark run.
#[derive(Debug)]
pub struct BenchArgs {
    pub size_gib: u64,
    pub file_path: String,
    pub tenant_id: String,
    pub user_id: String,
    pub destination_uri: String,
    pub quic_addr: Option<String>,
    pub io_chunk_bytes: usize,
    pub lanes: u32,
    pub no_disk: bool,
    pub auto_lanes_report: Option<String>,
    pub lane_policy: Option<String>,
    pub auto_runtime_report: Option<String>,
    pub runtime_policy: Option<String>,
}

/// A copy of a text that may be missing.
pub fn copy_optional(value: &Option<String>) -> (r: Option<String>)
    ensures
        r == *value,
{
    match value {
        Some(text) => Some(text.clone()),
        None => None,
    }
}

/// The number of bytes in so many gibibytes.
pub fn gib_to_bytes(size_gib: u64) -> (r: u64)
    requires
        size_gib * GIB <= u64::MAX,
    ensures
        r == size_gib * GIB,
{
    size_gib * GIB
}

/// Whether a file of this size has a length in bytes.
pub fn has_byte_length(size_gib: u64) -> (r: bool)
    ensures
        r == (size_gib * GIB <= u64::MAX),
{
    size_gib <= u64::MAX / GIB
}

/// The name that a benchmark file is registered under: its own, where it has one.
pub fn bench_file_name(own_name: Option<&str>) -> (r: String)
    ensures
        r@ == (match own_name {
            Some(name) => name@,
            None => "metra-bench.bin"@,
        }),
{
    match own_name {
        Some(name) => name.to_owned(),
        None => "metra-bench.bin".to_owned(),
    }
}

/// Where the payload of a run is said to come from.
pub open spec fn source_uri_text(no_disk: bool, file_name: Seq<char>, file_path: Seq<char>) -> Seq<
    char,
> {
    if no_disk {
        "generated://zeros/"@ + file_name
    } else {
        "file://"@ + file_path
    }
}

pub fn source_uri(no_disk: bool, file_name: &str, file_path: &str) -> (r: String)
    ensures
        r@ == source_uri_text(no_disk, file_name@, file_path@),
{
    if no_disk {
        joined("generated://zeros/", file_name)
    } else {
        joined("file://", file_path)
    }
}

/// Where the payload of a run goes to.
pub open spec fn bench_destination_text(args: BenchArgs, file_name: Seq<char>) -> Seq<char> {
    if args.no_disk {
        "null://benchmark/"@ + file_name
    } else {
        args.destination_uri@
    }
}

/// Whether this is the request that a run registers its transfer with.
pub open spec fn is_bench_request(
    request: CreateTransferRequest,
    tenant_id: String,
    user_id: String,
    source_uri: Seq<char>,
    destination_uri: Seq<char>,
    file_name: Seq<char>,
    file_size_bytes: u64,
) -> bool {
    &&& request.tenant_id == tenant_id
    &&& request.user_id == user_id
    &&& request.source_uri@ == source_uri
    &&& request.destination_uri@ == destination_uri
    &&& request.file_name@ == file_name
    &&& request.file_size_bytes == file_size_bytes
    &&& request.resume_chunk_size_bytes == RESUME_CHUNK_SIZE_BYTES
    &&& request.overwrite
    &&& !request.immutable_destination
}

/// The request that a run registers its transfer with.
pub fn bench_request(args: &BenchArgs, file_name: &str) -> (r: CreateTransferRequest)
    requires
        args.size_gib * GIB <= u64::MAX,
    ensures
        is_bench_request(
            r,
            args.tenant_id,
            args.user_id,
            source_uri_text(args.no_disk, file_name@, args.file_path@),
            bench_destination_text(*args, file_name@),
            file_name@,
            (args.size_gib * GIB) as u64,
        ),
{
    CreateTransferRequest {
        tenant_id: args.tenant_id.clone(),
        user_id: args.user_id.clone(),
        source_uri: source_uri(args.no_disk, file_name, args.file_path.as_str()),
        destination_uri: if args.no_disk {
            joined("null://benchmark/", file_name)
        } else {
            args.destination_uri.clone()
        },
        file_name: file_name.to_owned(),
        file_size_bytes: gib_to_bytes(args.size_gib),
        resume_chunk_size_bytes: RESUME_CHUNK_SIZE_BYTES,
        overwrite: true,
        immutable_destination: false,
    }
}

/// Whether a request that was made for a run keeps the rules; `purpose` says what kind of run it is
/// for.
pub fn check_bench_request(request: &CreateTransferRequest, purpose: &str) -> (r: Result<
    (),
    String,
>)
    ensures
        match r {
            Ok(()) => messages::request_fault(*request) is None,
            Err(message) => messages::request_fault(*request) matches Some(reason) && message@
                == "invalid "@ + purpose@ + " transfer request: "@ + reason,
        },
{
    match request.validate() {
        Ok(()) => Ok(()),
        Err(reason) => {
            let mut message = joined("invalid ", purpose);
            message.append(" transfer request: ");
            message.append(reason.as_str());
            Err(message)
        },
    }
}

/// Where the payload of a run comes from.
pub fn bench_source(no_disk: bool, file_path: &str, file_size_bytes: u64) -> (r: PayloadSource)
    ensures
        if no_disk {
            r matches PayloadSource::GeneratedZeros { label } && label@ == "generated://zeros/"@
                + text::decimal(file_size_bytes as nat)
        } else {
            r matches PayloadSource::File(path) && path@ == file_path@
        },
{
    if no_disk {
        PayloadSource::GeneratedZeros { label: with_number("generated://zeros/", file_size_bytes) }
    } else {
        PayloadSource::File(file_path.to_owned())
    }
}

/// Whether a list holds a zero.
pub open spec fn has_zero_u64(values: Seq<u64>) -> bool {
    exists|i: int| 0 <= i < values.len() && #[trigger] values[i] == 0
}

pub open spec fn has_zero_u32(values: Seq<u32>) -> bool {
    exists|i: int| 0 <= i < values.len() && #[trigger] values[i] == 0
}

pub open spec fn has_zero_usize(values: Seq<usize>) -> bool {
    exists|i: int| 0 <= i < values.len() && #[trigger] values[i] == 0
}

fn any_zero_u64(values: &Vec<u64>) -> (r: bool)
    ensures
        r == has_zero_u64(values@),
{
    for i in 0..values.len()
        invariant
            forall|j: int| 0 <= j < i ==> #[trigger] values@[j] != 0,
    {
        if values[i] == 0 {
            return true;
        }
    }
    false
}

fn any_zero_u32(values: &Vec<u32>) -> (r: bool)
    ensures
        r == has_zero_u32(values@),
{
    for i in 0..values.len()
        invariant
            forall|j: int| 0 <= j < i ==> #[trigger] values@[j] != 0,
    {
        if values[i] == 0 {
            return true;
        }
    }
    false
}

fn any_zero_usize(values: &Vec<usize>) -> (r: bool)
    ensures
        r == has_zero_usize(values@),
{
    for i in 0..values.len()
        invariant
            forall|j: int| 0 <= j < i ==> #[trigger] values@[j] != 0,
    {
        if values[i] == 0 {
            return true;
        }
    }
    false
}

/// The arguments of a matrix of runs: every size with every number of lanes and every chunk size.
#[derive(Debug)]
pub struct MatrixArgs {
    pub sizes_gib: Vec<u64>,
    pub lanes: Vec<u32>,
    pub io_chunk_bytes: Vec<usize>,
    pub tenant_id: String,
    pub user_id: String,
    pub destination_prefix: String,
    pub quic_addr: Option<String>,
    pub no_disk: bool,
    pub auto_lanes_report: Option<String>,
    pub lane_policy: Option<String>,
}

/// Why a matrix is not run.
pub open spec fn matrix_fault(args: MatrixArgs) -> Option<Seq<char>> {
    if args.sizes_gib@.len() == 0 {
        Some("sizes_gib must contain at least one value"@)
    } else if args.lanes@.len() == 0 {
        Some("lanes must contain at least one value"@)
    } else if args.io_chunk_bytes@.len() == 0 {
        Some("io_chunk_bytes must contain at least one value"@)
    } else if has_zero_u64(args.sizes_gib@) {
        Some("sizes_gib values must be > 0"@)
    } else if has_zero_u32(args.lanes@) {
        Some("lanes values must be > 0"@)
    } else if has_zero_usize(args.io_chunk_bytes@) {
        Some("io_chunk_bytes values must be > 0"@)
    } else {
        None
    }
}

/// One run of a matrix. Its file lies in the directory of the matrix.
#[derive(Debug)]
pub struct MatrixCell {
    pub size_gib: u64,
    pub lanes: u32,
    pub io_chunk_bytes: usize,
    pub file_name: String,
    pub destination_uri: String,
}

/// The runs for one size and one number of lanes, in the order of the chunk sizes.
pub open spec fn chunk_cells(size: u64, lanes: u32, chunks: Seq<usize>) -> Seq<(u64, u32, usize)> {
    chunks.map_values(|chunk: usize| (size, lanes, chunk))
}

/// The runs for one size, in the order of the numbers of lanes.
pub open spec fn lane_cells(size: u64, lanes: Seq<u32>, chunks: Seq<usize>) -> Seq<(u64, u32, usize)>
    decreases lanes.len(),
{
    if lanes.len() == 0 {
        Seq::empty()
    } else {
        lane_cells(size, lanes.drop_last(), chunks) + chunk_cells(size, lanes.last(), chunks)
    }
}

/// All runs, in the order of the sizes.
pub open spec fn matrix_cells(sizes: Seq<u64>, lanes: Seq<u32>, chunks: Seq<usize>) -> Seq<
    (u64, u32, usize),
>
    decreases sizes.len(),
{
    if sizes.len() == 0 {
        Seq::empty()
    } else {
        matrix_cells(sizes.drop_last(), lanes, chunks) + lane_cells(sizes.last(), lanes, chunks)
    }
}

/// The name of the file of a run.
pub open spec fn matrix_file_name(cell: (u64, u32, usize)) -> Seq<char> {
    "metra-bench-"@ + text::decimal(cell.0 as nat) + "g-l"@ + text::decimal(cell.1 as nat) + "-c"@
        + text::decimal(cell.2 as nat) + ".bin"@
}

/// What the destinations of a matrix begin with.
pub open spec fn matrix_prefix(args: MatrixArgs) -> Seq<char> {
    if args.no_disk {
        "null://benchmark"@
    } else {
        text::without_end_slashes(args.destination_prefix@)
    }
}

impl MatrixCell {
    /// Whether this is the run of these values.
    pub open spec fn runs(self, cell: (u64, u32, usize), prefix: Seq<char>) -> bool {
        &&& self.size_gib == cell.0
        &&& self.lanes == cell.1
        &&& self.io_chunk_bytes == cell.2
        &&& self.file_name@ == matrix_file_name(cell)
        &&& self.destination_uri@ == prefix + "/"@ + matrix_file_name(cell)
    }
}

fn matrix_cell(size_gib: u64, lanes: u32, io_chunk_bytes: usize, prefix: &str) -> (r: MatrixCell)
    ensures
        r.runs((size_gib, lanes, io_chunk_bytes), prefix@),
{
    let mut file_name = with_number("metra-bench-", size_gib);
    file_name.append("g-l");
    push_decimal(&mut file_name, lanes as u64);
    file_name.append("-c");
    push_decimal(&mut file_name, io_chunk_bytes as u64);
    file_name.append(".bin");
    let mut destination_uri = joined(prefix, "/");
    destination_uri.append(file_name.as_str());
    MatrixCell { size_gib, lanes, io_chunk_bytes, file_name, destination_uri }
}

/// Whether these are the runs of these values.
pub open spec fn are_runs(plan: Seq<MatrixCell>, cells: Seq<(u64, u32, usize)>, prefix: Seq<char>) -> bool {
    &&& plan.len() == cells.len()
    &&& forall|i: int| 0 <= i < cells.len() ==> (#[trigger] plan[i]).runs(cells[i], prefix)
}

/// Whether a matrix can be run.
pub fn check_matrix(args: &MatrixArgs) -> (r: Result<(), String>)
    ensures
        match r {
            Ok(()) => matrix_fault(*args) is None,
            Err(message) => matrix_fault(*args) == Some(message@),
        },
{
    if args.sizes_gib.len() == 0 {
        return Err("sizes_gib must contain at least one value".to_owned());
    }
    if args.lanes.len() == 0 {
        return Err("lanes must contain at least one value".to_owned());
    }
    if args.io_chunk_bytes.len() == 0 {
        return Err("io_chunk_bytes must contain at least one value".to_owned());
    }
    if any_zero_u64(&args.sizes_gib) {
        return Err("sizes_gib values must be > 0".to_owned());
    }
    if any_zero_u32(&args.lanes) {
        return Err("lanes values must be > 0".to_owned());
    }
    if any_zero_usize(&args.io_chunk_bytes) {
        return Err("io_chunk_bytes values must be > 0".to_owned());
    }
    Ok(())
}

/// The runs of a matrix, in the order in which they are run.
pub fn plan_matrix(args: &MatrixArgs) -> (r: Vec<MatrixCell>)
    ensures
        are_runs(
            r@,
            matrix_cells(args.sizes_gib@, args.lanes@, args.io_chunk_bytes@),
            matrix_prefix(*args),
        ),
{
    let prefix = if args.no_disk {
        "null://benchmark".to_owned()
    } else {
        trim_end_slashes(args.destination_prefix.as_str())
    };
    let mut plan: Vec<MatrixCell> = Vec::new();
    let ghost sizes = args.sizes_gib@;
    let ghost lanes = args.lanes@;
    let ghost chunks = args.io_chunk_bytes@;
    for s in 0..args.sizes_gib.len()
        invariant
            sizes == args.sizes_gib@,
            lanes == args.lanes@,
            chunks == args.io_chunk_bytes@,
            are_runs(plan@, matrix_cells(sizes.take(s as int), lanes, chunks), prefix@),
    {
        let size: u64 = args.sizes_gib[s];
        let ghost done = matrix_cells(sizes.take(s as int), lanes, chunks);
        proof {
            assert(done + lane_cells(size, lanes.take(0), chunks) =~= done);
        }
        for l in 0..args.lanes.len()
            invariant
                s < sizes.len(),
                sizes == args.sizes_gib@,
                lanes == args.lanes@,
                chunks == args.io_chunk_bytes@,
                size == sizes[s as int],
                are_runs(plan@, done + lane_cells(size, lanes.take(l as int), chunks), prefix@),
        {
            let lane_count: u32 = args.lanes[l];
            let ghost before = done + lane_cells(size, lanes.take(l as int), chunks);
            proof {
                assert(before + chunk_cells(size, lane_count, chunks.take(0)) =~= before);
            }
            for c in 0..args.io_chunk_bytes.len()
                invariant
                    chunks == args.io_chunk_bytes@,
                    are_runs(
                        plan@,
                        before + chunk_cells(size, lane_count, chunks.take(c as int)),
                        prefix@,
                    ),
            {
                plan.push(
                    matrix_cell(size, lane_count, args.io_chunk_bytes[c], prefix.as_str()),
                );
                proof {
                    assert(before + chunk_cells(size, lane_count, chunks.take(c + 1)) =~= (before
                        + chunk_cells(size, lane_count, chunks.take(c as int))).push(
                        (size, lane_count, chunks[c as int]),
                    ));
                }
            }
            proof {
                assert(chunks.take(chunks.len() as int) =~= chunks);
                assert(lanes.take(l + 1).drop_last() =~= lanes.take(l as int));
                assert(done + lane_cells(size, lanes.take(l + 1), chunks) =~= before + chunk_cells(
                    size,
                    lane_count,
                    chunks,
                ));
            }
        }
        proof {
            assert(lanes.take(lanes.len() as int) =~= lanes);
            assert(sizes.take(s + 1).drop_last() =~= sizes.take(s as int));
        }
    }
    proof {
        assert(sizes.take(sizes.len() as int) =~= sizes);
    }
    plan
}

/// A matrix has a run for each combination of a size, a number of lanes and a chunk size.
pub proof fn matrix_runs_every_combination(
    sizes: Seq<u64>,
    lanes: Seq<u32>,
    chunks: Seq<usize>,
    s: int,
    l: int,
    c: int,
)
    requires
        0 <= s < sizes.len(),
        0 <= l < lanes.len(),
        0 <= c < chunks.len(),
    ensures
        matrix_cells(sizes, lanes, chunks).contains((sizes[s], lanes[l], chunks[c])),
        matrix_cells(sizes, lanes, chunks).len() == sizes.len() * (lanes.len() * chunks.len()),
    decreases sizes.len(),
{
    let rest = sizes.drop_last();
    let cell = (sizes[s], lanes[l], chunks[c]);
    let all = matrix_cells(sizes, lanes, chunks);
    let row = lane_cells(sizes.last(), lanes, chunks);
    row_runs_every_combination(sizes.last(), lanes, chunks, l, c);
    let n = lanes.len() * chunks.len();
    if s < rest.len() {
        matrix_runs_every_combination(rest, lanes, chunks, s, l, c);
        let k = matrix_cells(rest, lanes, chunks).index_of(cell);
        assert(all[k] == cell);
    } else {
        let k = row.index_of(cell);
        assert(all[matrix_cells(rest, lanes, chunks).len() + k] == cell);
        if rest.len() > 0 {
            matrix_runs_every_combination(rest, lanes, chunks, 0, l, c);
        }
    }
    assert(sizes.len() * n == rest.len() * n + n) by (nonlinear_arith)
        requires
            sizes.len() == rest.len() + 1,
    ;
    if rest.len() == 0 {
        assert(rest.len() * n == 0);
    }
}

proof fn row_runs_every_combination(
    size: u64,
    lanes: Seq<u32>,
    chunks: Seq<usize>,
    l: int,
    c: int,
)
    requires
        0 <= l < lanes.len(),
        0 <= c < chunks.len(),
    ensures
        lane_cells(size, lanes, chunks).contains((size, lanes[l], chunks[c])),
        lane_cells(size, lanes, chunks).len() == lanes.len() * chunks.len(),
    decreases lanes.len(),
{
    let rest = lanes.drop_last();
    let cell = (size, lanes[l], chunks[c]);
    let all = lane_cells(size, lanes, chunks);
    let row = chunk_cells(size, lanes.last(), chunks);
    if l < rest.len() {
        row_runs_every_combination(size, rest, chunks, l, c);
        let k = lane_cells(size, rest, chunks).index_of(cell);
        assert(all[k] == cell);
    } else {
        assert(row[c] == cell);
        assert(all[lane_cells(size, rest, chunks).len() + c] == cell);
        if rest.len() > 0 {
            row_runs_every_combination(size, rest, chunks, 0, c);
        }
    }
    assert(lanes.len() * chunks.len() == rest.len() * chunks.len() + chunks.len())
        by (nonlinear_arith)
        requires
            lanes.len() == rest.len() + 1,
    ;
    if rest.len() == 0 {
        assert(rest.len() * chunks.len() == 0);
    }
}

/// The arguments of the run of a matrix cell.
pub fn matrix_bench_args(args: &MatrixArgs, cell: &MatrixCell, file_path: &str) -> (r: BenchArgs)
    ensures
        r.file_path@ == file_path@,
        r == (BenchArgs {
            size_gib: cell.size_gib,
            file_path: r.file_path,
            tenant_id: args.tenant_id,
            user_id: args.user_id,
            destination_uri: cell.destination_uri,
            quic_addr: args.quic_addr,
            io_chunk_bytes: cell.io_chunk_bytes,
            lanes: cell.lanes,
            no_disk: args.no_disk,
            auto_lanes_report: args.auto_lanes_report,
            lane_policy: args.lane_policy,
            auto_runtime_report: None,
            runtime_policy: None,
        }),
{
    BenchArgs {
        size_gib: cell.size_gib,
        file_path: file_path.to_owned(),
        tenant_id: args.tenant_id.clone(),
        user_id: args.user_id.clone(),
        destination_uri: cell.destination_uri.clone(),
        quic_addr: copy_optional(&args.quic_addr),
        io_chunk_bytes: cell.io_chunk_bytes,
        lanes: cell.lanes,
        no_disk: args.no_disk,
        auto_lanes_report: copy_optional(&args.auto_lanes_report),
        lane_policy: copy_optional(&args.lane_policy),
        auto_runtime_report: None,
        runtime_policy: None,
    }
}

/// What is reported of a run of a matrix.
#[derive(Debug)]
pub struct BenchmarkMatrixRun {
    pub size_gib: u64,
    pub lanes: u32,
    pub effective_lanes: Option<u32>,
    pub lane_selection: Option<String>,
    pub io_chunk_bytes: usize,
    pub file_path: String,
    pub success: bool,
    pub transfer_id: Option<u128>,
    pub elapsed_ms: Option<u128>,
    pub average_gbps: Option<Throughput>,
    pub total_streamed_bytes: Option<u64>,
    pub final_status: Option<String>,
    pub error: Option<String>,
}

/// What is reported of a run that succeeded with a report or failed with an error.
pub fn matrix_run(
    cell: &MatrixCell,
    file_path: &str,
    outcome: Result<SendTransferReport, String>,
) -> (r: BenchmarkMatrixRun)
    ensures
        match outcome {
            Ok(report) => r == (BenchmarkMatrixRun {
                size_gib: cell.size_gib,
                lanes: cell.lanes,
                effective_lanes: Some(report.effective_lanes),
                lane_selection: report.lane_selection,
                io_chunk_bytes: cell.io_chunk_bytes,
                file_path: report.file_path,
                success: true,
                transfer_id: Some(report.transfer_id),
                elapsed_ms: Some(report.elapsed_ms),
                average_gbps: Some(report.average_gbps),
                total_streamed_bytes: Some(report.total_streamed_bytes),
                final_status: Some(report.final_status),
                error: None,
            }),
            Err(error) => {
                &&& r.file_path@ == file_path@
                &&& r == (BenchmarkMatrixRun {
                    size_gib: cell.size_gib,
                    lanes: cell.lanes,
                    effective_lanes: None,
                    lane_selection: None,
                    io_chunk_bytes: cell.io_chunk_bytes,
                    file_path: r.file_path,
                    success: false,
                    transfer_id: None,
                    elapsed_ms: None,
                    average_gbps: None,
                    total_streamed_bytes: None,
                    final_status: None,
                    error: Some(error),
                })
            },
        },
{
    match outcome {
        Ok(report) => BenchmarkMatrixRun {
            size_gib: cell.size_gib,
            lanes: cell.lanes,
            effective_lanes: Some(report.effective_lanes),
            lane_selection: report.lane_selection,
            io_chunk_bytes: cell.io_chunk_bytes,
            file_path: report.file_path,
            success: true,
            transfer_id: Some(report.transfer_id),
            elapsed_ms: Some(report.elapsed_ms),
            average_gbps: Some(report.average_gbps),
            total_streamed_bytes: Some(report.total_streamed_bytes),
            final_status: Some(report.final_status),
            error: None,
        },
        Err(error) => BenchmarkMatrixRun {
            size_gib: cell.size_gib,
            lanes: cell.lanes,
            effective_lanes: None,
            lane_selection: None,
            io_chunk_bytes: cell.io_chunk_bytes,
            file_path: file_path.to_owned(),
            success: false,
            transfer_id: None,
            elapsed_ms: None,
            average_gbps: None,
            total_streamed_bytes: None,
            final_status: None,
            error: Some(error),
        },
    }
}

/// The rate of a run that is in the running for the best: a run that succeeded without a rate counts
/// as zero.
pub open spec fn run_rate(run: BenchmarkMatrixRun) -> Option<Throughput> {
    if run.success {
        match run.average_gbps {
            Some(rate) => Some(rate),
            None => Some(Throughput { bits: 0 }),
        }
    } else {
        None
    }
}

/// What a matrix came to: how many runs succeeded and failed, and which was the fastest, the last of
/// several that were as fast.
#[derive(Debug, Clone, Copy, PartialEq, Eq, Structural)]
pub struct MatrixSummary {
    pub total_runs: usize,
    pub successful_runs: usize,
    pub failed_runs: usize,
    pub best_run: Option<usize>,
}

pub fn summarize_matrix(runs: &Vec<BenchmarkMatrixRun>) -> (r: MatrixSummary)
    ensures
        r.total_runs == runs@.len(),
        r.successful_runs == runs@.filter(|run: BenchmarkMatrixRun| run.success).len(),
        r.successful_runs + r.failed_runs == r.total_runs,
        throughput::last_highest(runs@.map_values(|run: BenchmarkMatrixRun| run_rate(run))) == (
        match r.best_run {
            Some(i) => Some(i as int),
            None => None::<int>,
        }),
        r.best_run is None <==> r.successful_runs == 0,
{
    let ghost ok = |run: BenchmarkMatrixRun| run.success;
    let ghost rate = |run: BenchmarkMatrixRun| run_rate(run);
    let mut rates: Vec<Option<Throughput>> = Vec::new();
    let mut successful: usize = 0;
    proof {
        reveal(Seq::filter);
    }
    for i in 0..runs.len()
        invariant
            ok == (|run: BenchmarkMatrixRun| run.success),
            rate == (|run: BenchmarkMatrixRun| run_rate(run)),
            rates@ == runs@.map_values(rate).take(i as int),
            successful <= i,
            successful == runs@.take(i as int).filter(ok).len(),
            successful == 0 <==> forall|j: int| 0 <= j < i ==> #[trigger] rates@[j] is None,
    {
        proof {
            assert(runs@.take(i + 1).drop_last() =~= runs@.take(i as int));
            reveal(Seq::filter);
        }
        let ghost before = rates@;
        if runs[i].success {
            successful = successful + 1;
            match runs[i].average_gbps {
                Some(value) => rates.push(Some(value)),
                None => rates.push(Some(Throughput::zero())),
            }
            assert(rates@[i as int] is Some);
        } else {
            rates.push(None);
            assert(forall|j: int| 0 <= j < i ==> #[trigger] rates@[j] == before[j]);
        }
        assert(rates@ =~= runs@.map_values(rate).take(i + 1));
    }
    proof {
        assert(runs@.take(runs@.len() as int) =~= runs@);
        assert(rates@ =~= runs@.map_values(rate));
    }
    MatrixSummary {
        total_runs: runs.len(),
        successful_runs: successful,
        failed_runs: runs.len() - successful,
        best_run: highest(&rates),
    }
}

/// The arguments of a comparison of runs with and without a disk.
#[derive(Debug)]
pub struct CompareArgs {
    pub size_gib: u64,
    pub file_path: String,
    pub tenant_id: String,
    pub user_id: String,
    pub destination_uri: String,
    pub quic_addr: Option<String>,
    pub io_chunk_bytes: usize,
    pub lanes: u32,
    pub iterations: u32,
    pub cleanup_file: bool,
}

/// Why a comparison is not run.
pub open spec fn compare_fault(size_gib: u64, lanes: u32, io_chunk_bytes: usize, iterations: u32) -> Option<
    Seq<char>,
> {
    if size_gib == 0 {
        Some("size_gib must be > 0"@)
    } else if lanes == 0 {
        Some("lanes must be > 0"@)
    } else if io_chunk_bytes == 0 {
        Some("io_chunk_bytes must be > 0"@)
    } else if iterations == 0 {
        Some("iterations must be > 0"@)
    } else {
        None
    }
}

/// Whether a comparison can be run.
pub fn check_compare(args: &CompareArgs) -> (r: Result<(), String>)
    ensures
        match r {
            Ok(()) => compare_fault(
                args.size_gib,
                args.lanes,
                args.io_chunk_bytes,
                args.iterations,
            ) is None,
            Err(message) => compare_fault(
                args.size_gib,
                args.lanes,
                args.io_chunk_bytes,
                args.iterations,
            ) == Some(message@),
        },
{
    if args.size_gib == 0 {
        return Err("size_gib must be > 0".to_owned());
    }
    if args.lanes == 0 {
        return Err("lanes must be > 0".to_owned());
    }
    if args.io_chunk_bytes == 0 {
        return Err("io_chunk_bytes must be > 0".to_owned());
    }
    if args.iterations == 0 {
        return Err("iterations must be > 0".to_owned());
    }
    Ok(())
}

/// The arguments of one run of a comparison. Lanes are as configured.
pub open spec fn compared_args(args: CompareArgs, no_disk: bool) -> BenchArgs {
    BenchArgs {
        size_gib: args.size_gib,
        file_path: args.file_path,
        tenant_id: args.tenant_id,
        user_id: args.user_id,
        destination_uri: args.destination_uri,
        quic_addr: args.quic_addr,
        io_chunk_bytes: args.io_chunk_bytes,
        lanes: args.lanes,
        no_disk,
        auto_lanes_report: None,
        lane_policy: None,
        auto_runtime_report: None,
        runtime_policy: None,
    }
}

/// The arguments of one run of a comparison, with the disk or without it.
pub fn compare_bench_args(args: &CompareArgs, no_disk: bool) -> (r: BenchArgs)
    ensures
        r == compared_args(*args, no_disk),
{
    BenchArgs {
        size_gib: args.size_gib,
        file_path: args.file_path.clone(),
        tenant_id: args.tenant_id.clone(),
        user_id: args.user_id.clone(),
        destination_uri: args.destination_uri.clone(),
        quic_addr: copy_optional(&args.quic_addr),
        io_chunk_bytes: args.io_chunk_bytes,
        lanes: args.lanes,
        no_disk,
        auto_lanes_report: None,
        lane_policy: None,
        auto_runtime_report: None,
        runtime_policy: None,
    }
}

/// The run of a comparison that comes after so many that are done, with the number of its iteration:
/// each iteration runs with the disk first and without it second.
pub fn compare_run(args: &CompareArgs, done: u64) -> (r: Option<(u32, BenchArgs)>)
    ensures
        r is None <==> done >= 2 * args.iterations,
        r matches Some((iteration, run)) ==> {
            &&& iteration == done / 2 + 1
            &&& run == compared_args(*args, done % 2 == 1)
        },
{
    if done >= 2 * args.iterations as u64 {
        return None;
    }
    let iteration: u32 = (done / 2) as u32 + 1;
    Some((iteration, compare_bench_args(args, done % 2 == 1)))
}

/// The arguments of a series of comparisons, one for each size.
#[derive(Debug)]
pub struct CompareSeriesArgs {
    pub sizes_gib: Vec<u64>,
    pub file_prefix: String,
    pub tenant_id: String,
    pub user_id: String,
    pub destination_prefix: String,
    pub quic_addr: Option<String>,
    pub io_chunk_bytes: usize,
    pub lanes: u32,
    pub iterations: u32,
    pub cleanup_files: bool,
}

/// Why a series is not run.
pub open spec fn series_fault(args: CompareSeriesArgs) -> Option<Seq<char>> {
    if args.sizes_gib@.len() == 0 {
        Some("sizes_gib must contain at least one value"@)
    } else if has_zero_u64(args.sizes_gib@) {
        Some("sizes_gib values must be > 0"@)
    } else {
        compare_fault(1, args.lanes, args.io_chunk_bytes, args.iterations)
    }
}

/// Whether a series can be run.
pub fn check_series(args: &CompareSeriesArgs) -> (r: Result<(), String>)
    ensures
        match r {
            Ok(()) => series_fault(*args) is None,
            Err(message) => series_fault(*args) == Some(message@),
        },
{
    if args.sizes_gib.len() == 0 {
        return Err("sizes_gib must contain at least one value".to_owned());
    }
    if any_zero_u64(&args.sizes_gib) {
        return Err("sizes_gib values must be > 0".to_owned());
    }
    if args.lanes == 0 {
        return Err("lanes must be > 0".to_owned());
    }
    if args.io_chunk_bytes == 0 {
        return Err("io_chunk_bytes must be > 0".to_owned());
    }
    if args.iterations == 0 {
        return Err("iterations must be > 0".to_owned());
    }
    Ok(())
}

/// The name of the file of one comparison of a series.
pub open spec fn series_file_name(file_prefix: Seq<char>, size_gib: u64) -> Seq<char> {
    file_prefix + "-"@ + text::decimal(size_gib as nat) + "g.bin"@
}

/// The name of the file of one comparison of a series. It lies in the directory of the series.
pub fn compare_file_name(file_prefix: &str, size_gib: u64) -> (r: String)
    ensures
        r@ == series_file_name(file_prefix@, size_gib),
{
    let mut name = joined(file_prefix, "-");
    push_decimal(&mut name, size_gib);
    name.append("g.bin");
    name
}

/// The arguments of one comparison of a series.
pub fn series_compare_args(args: &CompareSeriesArgs, size_gib: u64, file_path: &str) -> (r:
    CompareArgs)
    ensures
        r.file_path@ == file_path@,
        r.destination_uri@ == text::without_end_slashes(args.destination_prefix@) + "/"@
            + series_file_name(args.file_prefix@, size_gib),
        r == (CompareArgs {
            size_gib,
            file_path: r.file_path,
            tenant_id: args.tenant_id,
            user_id: args.user_id,
            destination_uri: r.destination_uri,
            quic_addr: args.quic_addr,
            io_chunk_bytes: args.io_chunk_bytes,
            lanes: args.lanes,
            iterations: args.iterations,
            cleanup_file: args.cleanup_files,
        }),
{
    let mut destination_uri = trim_end_slashes(args.destination_prefix.as_str());
    destination_uri.append("/");
    destination_uri.append(compare_file_name(args.file_prefix.as_str(), size_gib).as_str());
    CompareArgs {
        size_gib,
        file_path: file_path.to_owned(),
        tenant_id: args.tenant_id.clone(),
        user_id: args.user_id.clone(),
        destination_uri,
        quic_addr: copy_optional(&args.quic_addr),
        io_chunk_bytes: args.io_chunk_bytes,
        lanes: args.lanes,
        iterations: args.iterations,
        cleanup_file: args.cleanup_files,
    }
}

/// The middle rates of one comparison of a series.
#[derive(Debug, Clone, Copy, PartialEq, Eq, Structural)]
pub struct SeriesRow {
    pub size_gib: u64,
    pub disk_p50_gbps: Throughput,
    pub no_disk_p50_gbps: Throughput,
    pub delta_p50_gbps: Throughput,
}

/// The sizes at which a series was best: with a disk, without one, and in the difference.
#[derive(Debug, Clone, Copy, PartialEq, Eq, Structural)]
pub struct SeriesBest {
    pub disk_size_gib: Option<u64>,
    pub no_disk_size_gib: Option<u64>,
    pub delta_size_gib: Option<u64>,
}

/// The size of the row with the highest rate, the last of several with the same.
pub open spec fn fastest_size(rows: Seq<SeriesRow>, rates: Seq<Option<Throughput>>) -> Option<u64> {
    match throughput::last_highest(rates) {
        Some(i) => Some(rows[i].size_gib),
        None => None,
    }
}

fn best_size(rows: &Vec<SeriesRow>, rates: &Vec<Option<Throughput>>) -> (r: Option<u64>)
    requires
        rates@.len() == rows@.len(),
    ensures
        r == fastest_size(rows@, rates@),
{
    match highest(rates) {
        Some(i) => Some(rows[i].size_gib),
        None => None,
    }
}

pub fn best_sizes(rows: &Vec<SeriesRow>) -> (r: SeriesBest)
    ensures
        r.disk_size_gib == fastest_size(
            rows@,
            rows@.map_values(|row: SeriesRow| Some(row.disk_p50_gbps)),
        ),
        r.no_disk_size_gib == fastest_size(
            rows@,
            rows@.map_values(|row: SeriesRow| Some(row.no_disk_p50_gbps)),
        ),
        r.delta_size_gib == fastest_size(
            rows@,
            rows@.map_values(|row: SeriesRow| Some(row.delta_p50_gbps)),
        ),
{
    let mut disk: Vec<Option<Throughput>> = Vec::new();
    let mut no_disk: Vec<Option<Throughput>> = Vec::new();
    let mut delta: Vec<Option<Throughput>> = Vec::new();
    for i in 0..rows.len()
        invariant
            disk@.len() == i,
            no_disk@.len() == i,
            delta@.len() == i,
            forall|j: int| 0 <= j < i ==> #[trigger] disk@[j] == Some(rows@[j].disk_p50_gbps),
            forall|j: int| 0 <= j < i ==> #[trigger] no_disk@[j] == Some(rows@[j].no_disk_p50_gbps),
            forall|j: int| 0 <= j < i ==> #[trigger] delta@[j] == Some(rows@[j].delta_p50_gbps),
    {
        disk.push(Some(rows[i].disk_p50_gbps));
        no_disk.push(Some(rows[i].no_disk_p50_gbps));
        delta.push(Some(rows[i].delta_p50_gbps));
    }
    proof {
        assert(disk@ =~= rows@.map_values(|row: SeriesRow| Some(row.disk_p50_gbps)));
        assert(no_disk@ =~= rows@.map_values(|row: SeriesRow| Some(row.no_disk_p50_gbps)));
        assert(delta@ =~= rows@.map_values(|row: SeriesRow| Some(row.delta_p50_gbps)));
    }
    SeriesBest {
        disk_size_gib: best_size(rows, &disk),
        no_disk_size_gib: best_size(rows, &no_disk),
        delta_size_gib: best_size(rows, &delta),
    }
}

/// The runs of a matrix follow the order in which its values were given: all runs of a size come before
/// those of the next, among these all runs of a number of lanes before those of the next, and among
/// these the chunk sizes in turn.
pub proof fn matrix_runs_are_in_order(
    sizes: Seq<u64>,
    lanes: Seq<u32>,
    chunks: Seq<usize>,
    s: int,
    l: int,
    c: int,
)
    requires
        0 <= s < sizes.len(),
        0 <= l < lanes.len(),
        0 <= c < chunks.len(),
    ensures
        ({
            let k = s * (lanes.len() * chunks.len()) + (l * chunks.len() + c);
            &&& 0 <= k < matrix_cells(sizes, lanes, chunks).len()
            &&& matrix_cells(sizes, lanes, chunks)[k] == (sizes[s], lanes[l], chunks[c])
        }),
    decreases sizes.len(),
{
    let rest = sizes.drop_last();
    let n = lanes.len() * chunks.len();
    let place = l * chunks.len() + c;
    row_runs_every_combination(sizes.last(), lanes, chunks, l, c);
    row_runs_are_in_order(sizes.last(), lanes, chunks, l, c);
    if s < rest.len() {
        matrix_runs_are_in_order(rest, lanes, chunks, s, l, c);
    } else {
        if rest.len() > 0 {
            matrix_runs_every_combination(rest, lanes, chunks, 0, l, c);
        } else {
            assert(rest.len() * n == 0) by (nonlinear_arith)
                requires
                    rest.len() == 0,
            ;
        }
        assert(matrix_cells(rest, lanes, chunks).len() == rest.len() * n);
        assert(0 <= place < lane_cells(sizes.last(), lanes, chunks).len());
        assert(s * n == rest.len() * n);
    }
}

proof fn row_runs_are_in_order(size: u64, lanes: Seq<u32>, chunks: Seq<usize>, l: int, c: int)
    requires
        0 <= l < lanes.len(),
        0 <= c < chunks.len(),
    ensures
        0 <= l * chunks.len() + c < lane_cells(size, lanes, chunks).len(),
        lane_cells(size, lanes, chunks)[l * chunks.len() + c] == (size, lanes[l], chunks[c]),
    decreases lanes.len(),
{
    let rest = lanes.drop_last();
    let m = chunks.len();
    if l < rest.len() {
        row_runs_are_in_order(size, rest, chunks, l, c);
    } else {
        if rest.len() > 0 {
            row_runs_every_combination(size, rest, chunks, 0, c);
        } else {
            assert(rest.len() * m == 0);
        }
        assert(lane_cells(size, rest, chunks).len() == rest.len() * m);
        assert(l * m == rest.len() * m);
        assert(chunk_cells(size, lanes.last(), chunks)[c] == (size, lanes.last(), chunks[c]));
    }
    assert(l * m >= 0) by (nonlinear_arith)
        requires
            l >= 0,
    ;
}

/// The part of a file name that tells a run of a matrix from the others.
spec fn cell_words(cell: (u64, u32, usize)) -> Seq<char> {
    text::decimal(cell.0 as nat) + ("g-l"@ + (text::decimal(cell.1 as nat) + ("-c"@ + (
    text::decimal(cell.2 as nat) + ".bin"@))))
}

proof fn matrix_file_names_end_with_cell_words(cell: (u64, u32, usize))
    ensures
        matrix_file_name(cell) == "metra-bench-"@ + cell_words(cell),
{
    let opening = "metra-bench-"@;
    let s = text::decimal(cell.0 as nat);
    let l = text::decimal(cell.1 as nat);
    let c = text::decimal(cell.2 as nat);
    let to_size = opening + s;
    let to_mark = to_size + "g-l"@;
    let to_lanes = to_mark + l;
    let to_chunk = to_lanes + "-c"@;
    text::joining_is_associative(to_chunk, c, ".bin"@);
    text::joining_is_associative(to_lanes, "-c"@, c + ".bin"@);
    text::joining_is_associative(to_mark, l, "-c"@ + (c + ".bin"@));
    text::joining_is_associative(to_size, "g-l"@, l + ("-c"@ + (c + ".bin"@)));
    text::joining_is_associative(opening, s, "g-l"@ + (l + ("-c"@ + (c + ".bin"@))));
}

proof fn cell_words_are_distinct(a: (u64, u32, usize), b: (u64, u32, usize))
    requires
        cell_words(a) == cell_words(b),
    ensures
        a == b,
{
    reveal_strlit("g-l");
    reveal_strlit("-c");
    reveal_strlit(".bin");
    let last_a = text::decimal(a.2 as nat) + ".bin"@;
    let last_b = text::decimal(b.2 as nat) + ".bin"@;
    let lanes_a = text::decimal(a.1 as nat) + ("-c"@ + last_a);
    let lanes_b = text::decimal(b.1 as nat) + ("-c"@ + last_b);
    text::numerals_end_with_their_digits(
        a.0 as nat,
        b.0 as nat,
        "g-l"@ + lanes_a,
        "g-l"@ + lanes_b,
    );
    assert(("g-l"@ + lanes_a).skip(3) =~= lanes_a);
    assert(("g-l"@ + lanes_b).skip(3) =~= lanes_b);
    text::numerals_end_with_their_digits(a.1 as nat, b.1 as nat, "-c"@ + last_a, "-c"@ + last_b);
    assert(("-c"@ + last_a).skip(2) =~= last_a);
    assert(("-c"@ + last_b).skip(2) =~= last_b);
    text::numerals_end_with_their_digits(a.2 as nat, b.2 as nat, ".bin"@, ".bin"@);
}

/// No two runs of a matrix share a file: a run is told from the others by its size, its number of
/// lanes and its chunk size.
pub proof fn matrix_files_are_distinct(a: (u64, u32, usize), b: (u64, u32, usize))
    ensures
        matrix_file_name(a) == matrix_file_name(b) ==> a == b,
{
    let opening = "metra-bench-"@;
    matrix_file_names_end_with_cell_words(a);
    matrix_file_names_end_with_cell_words(b);
    if matrix_file_name(a) == matrix_file_name(b) {
        assert((opening + cell_words(a)).skip(opening.len() as int) =~= cell_words(a));
        assert((opening + cell_words(b)).skip(opening.len() as int) =~= cell_words(b));
        cell_words_are_distinct(a, b);
    }
}

/// No two comparisons of a series share a file.
pub proof fn series_files_are_distinct(file_prefix: Seq<char>, a: u64, b: u64)
    ensures
        series_file_name(file_prefix, a) == series_file_name(file_prefix, b) ==> a == b,
{
    if series_file_name(file_prefix, a) == series_file_name(file_prefix, b) {
        reveal_strlit("g.bin");
        let opening = file_prefix + "-"@;
        let n = opening.len() as int;
        let size_a = text::decimal(a as nat) + "g.bin"@;
        let size_b = text::decimal(b as nat) + "g.bin"@;
        assert(series_file_name(file_prefix, a) =~= opening + size_a);
        assert(series_file_name(file_prefix, b) =~= opening + size_b);
        assert((opening + size_a).skip(n) =~= size_a);
        assert((opening + size_b).skip(n) =~= size_b);
        text::numerals_end_with_their_digits(a as nat, b as nat, "g.bin"@, "g.bin"@);
    }
}

/// A run of a matrix has the values of its cell, and its destination is its file below the prefix.
pub proof fn runs_have_the_values_of_their_cell(
    run: MatrixCell,
    cell: (u64, u32, usize),
    prefix: Seq<char>,
)
    requires
        run.runs(cell, prefix),
    ensures
        (run.size_gib, run.lanes, run.io_chunk_bytes) == cell,
        run.destination_uri@ == prefix + seq!['/'] + run.file_name@,
        run.file_name@ == matrix_file_name(cell),
{
    reveal_strlit("/");
    assert("/"@ =~= seq!['/']);
}

/// A matrix is run exactly where it has sizes, numbers of lanes and chunk sizes, and none of them is
/// zero.
pub proof fn matrices_have_something_to_run(args: MatrixArgs)
    ensures
        matrix_fault(args) is None <==> {
            &&& args.sizes_gib@.len() > 0
            &&& args.lanes@.len() > 0
            &&& args.io_chunk_bytes@.len() > 0
            &&& forall|i: int| 0 <= i < args.sizes_gib@.len() ==> #[trigger] args.sizes_gib@[i] > 0
            &&& forall|i: int| 0 <= i < args.lanes@.len() ==> #[trigger] args.lanes@[i] > 0
            &&& forall|i: int|
                0 <= i < args.io_chunk_bytes@.len() ==> #[trigger] args.io_chunk_bytes@[i] > 0
        },
{
}

/// A comparison is run exactly where its size, its lanes, its chunk size and its iterations are not
/// zero.
pub proof fn comparisons_have_something_to_run(
    size_gib: u64,
    lanes: u32,
    io_chunk_bytes: usize,
    iterations: u32,
)
    ensures
        compare_fault(size_gib, lanes, io_chunk_bytes, iterations) is None <==> size_gib > 0
            && lanes > 0 && io_chunk_bytes > 0 && iterations > 0,
{
}

/// A series is run exactly where it has sizes, none of them zero, and its lanes, its chunk size and
/// its iterations are not zero.
pub proof fn series_have_something_to_run(args: CompareSeriesArgs)
    ensures
        series_fault(args) is None <==> {
            &&& args.sizes_gib@.len() > 0
            &&& forall|i: int| 0 <= i < args.sizes_gib@.len() ==> #[trigger] args.sizes_gib@[i] > 0
            &&& args.lanes > 0
            &&& args.io_chunk_bytes > 0
            &&& args.iterations > 0
        },
{
}

/// Both runs of a comparison are alike but for the disk: they have the size, the lanes, the chunk size
/// and the file that were asked for, and no report or policy changes that.
pub proof fn compared_runs_differ_in_the_disk_alone(args: CompareArgs, no_disk: bool)
    ensures
        ({
            let run = compared_args(args, no_disk);
            &&& run.no_disk == no_disk
            &&& run == (BenchArgs { no_disk, ..compared_args(args, !no_disk) })
            &&& run.size_gib == args.size_gib
            &&& run.lanes == args.lanes
            &&& run.io_chunk_bytes == args.io_chunk_bytes
            &&& run.file_path == args.file_path
            &&& run.tenant_id == args.tenant_id
            &&& run.user_id == args.user_id
            &&& run.destination_uri == args.destination_uri
            &&& run.quic_addr == args.quic_addr
            &&& run.auto_lanes_report is None
            &&& run.lane_policy is None
            &&& run.auto_runtime_report is None
            &&& run.runtime_policy is None
        }),
{
}

/// What runs without a disk is sent to destinations whose payload is dropped.
pub proof fn runs_without_a_disk_are_dropped(
    args: BenchArgs,
    matrix: MatrixArgs,
    file_name: Seq<char>,
    rest: Seq<char>,
)
    requires
        args.no_disk,
        matrix.no_disk,
    ensures
        upload::is_null_sink(bench_destination_text(args, file_name)),
        upload::is_null_sink(matrix_prefix(matrix) + rest),
{
    reveal_strlit("null://");
    reveal_strlit("null://benchmark/");
    reveal_strlit("null://benchmark");
    assert("null://"@ =~= bench_destination_text(args, file_name).take(7));
    assert("null://"@ =~= (matrix_prefix(matrix) + rest).take(7));
}

/// What runs with a disk is read from its file and goes where it was told.
pub proof fn runs_with_a_disk_go_where_they_are_told(
    args: BenchArgs,
    matrix: MatrixArgs,
    file_name: Seq<char>,
    file_path: Seq<char>,
)
    requires
        !args.no_disk,
        !matrix.no_disk,
    ensures
        bench_destination_text(args, file_name) == args.destination_uri@,
        matrix_prefix(matrix) == text::without_end_slashes(matrix.destination_prefix@),
        source_uri_text(false, file_name, file_path) == seq!['f', 'i', 'l', 'e', ':', '/', '/']
            + file_path,
        source_uri_text(true, file_name, file_path).skip(18) == file_name,
{
    reveal_strlit("file://");
    reveal_strlit("generated://zeros/");
    assert("file://"@ =~= seq!['f', 'i', 'l', 'e', ':', '/', '/']);
    assert(source_uri_text(true, file_name, file_path).skip(18) =~= file_name);
}

/// The request of a run may replace what is at its destination and resumes in chunks of 1 MiB. Where
/// its ids, its texts and its size are in order, it is accepted.
pub proof fn bench_requests_are_accepted(
    request: CreateTransferRequest,
    tenant_id: String,
    user_id: String,
    source_uri: Seq<char>,
    destination_uri: Seq<char>,
    file_name: Seq<char>,
    file_size_bytes: u64,
)
    requires
        is_bench_request(
            request,
            tenant_id,
            user_id,
            source_uri,
            destination_uri,
            file_name,
            file_size_bytes,
        ),
    ensures
        request.overwrite,
        !request.immutable_destination,
        request.resume_chunk_size_bytes == 1024 * 1024,
        request.file_size_bytes == file_size_bytes,
        request.tenant_id == tenant_id,
        request.user_id == user_id,
        request.source_uri@ == source_uri,
        request.destination_uri@ == destination_uri,
        request.file_name@ == file_name,
        messages::is_storage_id(tenant_id@) && messages::is_storage_id(user_id@)
            && !text::is_blank_text(source_uri) && !text::is_blank_text(destination_uri)
            && !text::is_blank_text(file_name) && 1 <= file_size_bytes
            <= messages::TRANSFER_FILE_SIZE_MAX_BYTES ==> messages::request_fault(request) is None,
{
}

/// The best run of a matrix succeeded, no run that succeeded has a higher rate, and none behind it has
/// as high a one; a run without a rate counts as zero. There is none exactly where none succeeded.
pub proof fn the_best_run_is_the_fastest(runs: Seq<BenchmarkMatrixRun>)
    ensures
        ({
            let zero = Throughput { bits: 0 };
            let best = throughput::last_highest(
                runs.map_values(|run: BenchmarkMatrixRun| run_rate(run)),
            );
            match best {
                Some(i) => {
                    &&& 0 <= i < runs.len()
                    &&& runs[i].success
                    &&& forall|j: int|
                        0 <= j < runs.len() && (#[trigger] runs[j]).success ==> {
                            let rate = runs[j].average_gbps.unwrap_or(zero).rank();
                            let top = runs[i].average_gbps.unwrap_or(zero).rank();
                            rate < top || (rate == top && j <= i)
                        }
                },
                None => forall|j: int| 0 <= j < runs.len() ==> !(#[trigger] runs[j]).success,
            }
        }),
{
    let rates = runs.map_values(|run: BenchmarkMatrixRun| run_rate(run));
    throughput::last_highest_is_highest(rates);
    assert(forall|j: int| 0 <= j < runs.len() ==> #[trigger] rates[j] == run_rate(runs[j]));
    match throughput::last_highest(rates) {
        Some(i) => {
            assert(throughput::is_last_highest(rates, i));
            assert forall|j: int| 0 <= j < runs.len() && (#[trigger] runs[j]).success implies {
                let zero = Throughput { bits: 0 };
                let rate = runs[j].average_gbps.unwrap_or(zero).rank();
                let top = runs[i].average_gbps.unwrap_or(zero).rank();
                rate < top || (rate == top && j <= i)
            } by {
                assert(rates[j] == run_rate(runs[j]));
            }
        },
        None => {
            assert forall|j: int| 0 <= j < runs.len() implies !(#[trigger] runs[j]).success by {
                assert(rates[j] == run_rate(runs[j]));
            }
        },
    }
}

/// The best size of a series is that of a row whose rate no row exceeds and no row behind it reaches.
/// There is none exactly where there are no rows.
pub proof fn the_best_size_has_the_highest_rate(rows: Seq<SeriesRow>, rates: Seq<Throughput>)
    requires
        rates.len() == rows.len(),
    ensures
        match fastest_size(rows, rates.map_values(|rate: Throughput| Some(rate))) {
            Some(size) => exists|i: int|
                #![trigger rows[i]]
                {
                    &&& 0 <= i < rows.len()
                    &&& rows[i].size_gib == size
                    &&& forall|j: int|
                        0 <= j < rows.len() ==> (#[trigger] rates[j]).rank() < rates[i].rank() || (
                        rates[j].rank() == rates[i].rank() && j <= i)
                },
            None => rows.len() == 0,
        },
{
    let offered = rates.map_values(|rate: Throughput| Some(rate));
    throughput::last_highest_is_highest(offered);
    assert(forall|j: int| 0 <= j < rates.len() ==> #[trigger] offered[j] == Some(rates[j]));
    match throughput::last_highest(offered) {
        Some(i) => {
            assert(throughput::is_last_highest(offered, i));
            assert(rows[i].size_gib == rows[i].size_gib);
            assert forall|j: int| 0 <= j < rows.len() implies (#[trigger] rates[j]).rank()
                < rates[i].rank() || (rates[j].rank() == rates[i].rank() && j <= i) by {
                assert(offered[j] == Some(rates[j]));
            }
        },
        None => {
            if rows.len() > 0 {
                assert(offered[0] is None);
            }
        },
    }
}

/// The runs of a plan are those of its cells, one for each and in their order.
pub proof fn plans_run_their_cells(
    plan: Seq<MatrixCell>,
    cells: Seq<(u64, u32, usize)>,
    prefix: Seq<char>,
    i: int,
)
    requires
        are_runs(plan, cells, prefix),
        0 <= i < cells.len(),
    ensures
        plan.len() == cells.len(),
        (plan[i].size_gib, plan[i].lanes, plan[i].io_chunk_bytes) == cells[i],
        plan[i].file_name@ == matrix_file_name(cells[i]),
{
    assert(plan[i].runs(cells[i], prefix));
}

/// Why runs are not started is told of the first value that is wrong, whatever follows it.
pub proof fn runs_are_told_their_first_fault(
    lanes: (u32, u32),
    chunks: (usize, usize),
    iterations: (u32, u32),
    sizes: (u64, u64),
)
    requires
        sizes.0 > 0,
        sizes.1 > 0,
    ensures
        compare_fault(0, lanes.0, chunks.0, iterations.0) == compare_fault(
            0,
            lanes.1,
            chunks.1,
            iterations.1,
        ),
        compare_fault(sizes.0, 0, chunks.0, iterations.0) == compare_fault(
            sizes.1,
            0,
            chunks.1,
            iterations.1,
        ),
        lanes.0 > 0 && lanes.1 > 0 ==> compare_fault(sizes.0, lanes.0, 0, iterations.0)
            == compare_fault(sizes.1, lanes.1, 0, iterations.1),
        lanes.0 > 0 && lanes.1 > 0 && chunks.0 > 0 && chunks.1 > 0 ==> compare_fault(
            sizes.0,
            lanes.0,
            chunks.0,
            0,
        ) == compare_fault(sizes.1, lanes.1, chunks.1, 0),
{
}

/// Why a matrix is not run is told of the first list that is wrong: an empty list comes before a zero
/// in any, and sizes come before lanes and these before chunk sizes.
pub proof fn matrices_are_told_their_first_fault(a: MatrixArgs, b: MatrixArgs)
    ensures
        ({
            let same = matrix_fault(a) == matrix_fault(b);
            let sized = a.sizes_gib@.len() > 0 && b.sizes_gib@.len() > 0;
            let laned = sized && a.lanes@.len() > 0 && b.lanes@.len() > 0;
            let full = laned && a.io_chunk_bytes@.len() > 0 && b.io_chunk_bytes@.len() > 0;
            let zero_sizes = a.sizes_gib@.contains(0) && b.sizes_gib@.contains(0);
            let no_zero_sizes = !a.sizes_gib@.contains(0) && !b.sizes_gib@.contains(0);
            &&& a.sizes_gib@.len() == 0 && b.sizes_gib@.len() == 0 ==> same
            &&& sized && a.lanes@.len() == 0 && b.lanes@.len() == 0 ==> same
            &&& laned && a.io_chunk_bytes@.len() == 0 && b.io_chunk_bytes@.len() == 0 ==> same
            &&& full && zero_sizes ==> same
            &&& full && no_zero_sizes && a.lanes@.contains(0) && b.lanes@.contains(0) ==> same
        }),
{
}

} // verus!
