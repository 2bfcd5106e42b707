//! The interactive client: what it knows, what its keys do, and what it shows.

use crate::bench::{copy_optional, BenchArgs};
use crate::cli::TuiArgs;
use crate::messages::HealthResponse;
use crate::text;
use crate::text::{joined, push_bool, push_decimal, with_number};
use vstd::prelude::*;
use vstd::string::*;

verus! {

/// What a key asks for.
#[derive(Debug, Clone, Copy, PartialEq, Eq, Structural)]
pub enum TuiCommand {
    Quit,
    RefreshHealth,
    RunBenchmark,
    Nothing,
}

/// What a key asks for, when it is pressed.
pub fn command_for_key(key: char) -> (r: TuiCommand)
    ensures
        r == (if key == 'q' {
            TuiCommand::Quit
        } else if key == 'r' {
            TuiCommand::RefreshHealth
        } else if key == 'b' {
            TuiCommand::RunBenchmark
        } else {
            TuiCommand::Nothing
        }),
{
    if key == 'q' {
        TuiCommand::Quit
    } else if key == 'r' {
        TuiCommand::RefreshHealth
    } else if key == 'b' {
        TuiCommand::RunBenchmark
    } else {
        TuiCommand::Nothing
    }
}

/// What the client knows.
#[derive(Debug)]
pub struct TuiState {
    pub health: Option<HealthResponse>,
    pub error: Option<String>,
    pub refreshed_at: Option<String>,
    pub benchmark_running: bool,
    pub benchmark_report_json: Option<String>,
    pub benchmark_error: Option<String>,
}

impl Default for TuiState {
    fn default() -> (r: Self)
        ensures
            r == (TuiState {
                health: None,
                error: None,
                refreshed_at: None,
                benchmark_running: false,
                benchmark_report_json: None,
                benchmark_error: None,
            }),
    {
        TuiState {
            health: None,
            error: None,
            refreshed_at: None,
            benchmark_running: false,
            benchmark_report_json: None,
            benchmark_error: None,
        }
    }
}

impl TuiState {
    /// A health probe was answered, or failed with an error. What was known before a failure stays.
    pub fn health_probed(&mut self, outcome: Result<HealthResponse, String>, refreshed_at: String)
        ensures
            *final(self) == (match outcome {
                Ok(health) => TuiState {
                    health: Some(health),
                    error: None,
                    refreshed_at: Some(refreshed_at),
                    ..*old(self)
                },
                Err(error) => TuiState {
                    error: Some(error),
                    refreshed_at: Some(refreshed_at),
                    ..*old(self)
                },
            }),
    {
        match outcome {
            Ok(health) => {
                self.health = Some(health);
                self.error = None;
            },
            Err(error) => {
                self.error = Some(error);
            },
        }
        self.refreshed_at = Some(refreshed_at);
    }

    /// A benchmark begins. What the last one came to is forgotten.
    pub fn benchmark_started(&mut self)
        ensures
            *final(self) == (TuiState {
                benchmark_running: true,
                benchmark_report_json: None,
                benchmark_error: None,
                ..*old(self)
            }),
    {
        self.benchmark_running = true;
        self.benchmark_error = None;
        self.benchmark_report_json = None;
    }

    /// A benchmark has ended, with a report where it could be written out, or with an error.
    pub fn benchmark_ended(&mut self, outcome: Result<Option<String>, String>)
        ensures
            *final(self) == (match outcome {
                Ok(report) => TuiState {
                    benchmark_running: false,
                    benchmark_report_json: report,
                    benchmark_error: None,
                    ..*old(self)
                },
                Err(error) => TuiState {
                    benchmark_running: false,
                    benchmark_error: Some(error),
                    ..*old(self)
                },
            }),
    {
        match outcome {
            Ok(report) => {
                self.benchmark_report_json = report;
                self.benchmark_error = None;
            },
            Err(error) => {
                self.benchmark_error = Some(error);
            },
        }
        self.benchmark_running = false;
    }
}

/// The benchmark that the client runs.
pub fn tui_bench_args(args: &TuiArgs) -> (r: BenchArgs)
    ensures
        r.tenant_id@ == "tui-tenant"@,
        r.user_id@ == "tui-user"@,
        r.destination_uri@ == "local://benchmark/metra-tui-bench.bin"@,
        r == (BenchArgs {
            size_gib: args.bench_size_gib,
            file_path: args.bench_file_path,
            tenant_id: r.tenant_id,
            user_id: r.user_id,
            destination_uri: r.destination_uri,
            quic_addr: None,
            io_chunk_bytes: args.bench_io_chunk_bytes,
            lanes: args.bench_lanes,
            no_disk: args.bench_no_disk,
            auto_lanes_report: None,
            lane_policy: None,
            auto_runtime_report: args.auto_runtime_report,
            runtime_policy: args.runtime_policy,
        }),
{
    BenchArgs {
        size_gib: args.bench_size_gib,
        file_path: args.bench_file_path.clone(),
        tenant_id: "tui-tenant".to_owned(),
        user_id: "tui-user".to_owned(),
        destination_uri: "local://benchmark/metra-tui-bench.bin".to_owned(),
        quic_addr: None,
        io_chunk_bytes: args.bench_io_chunk_bytes,
        lanes: args.bench_lanes,
        no_disk: args.bench_no_disk,
        auto_lanes_report: None,
        lane_policy: None,
        auto_runtime_report: copy_optional(&args.auto_runtime_report),
        runtime_policy: copy_optional(&args.runtime_policy),
    }
}

/// The line that names the server.
pub fn server_line(server: &str) -> (r: String)
    ensures
        r@ == "Server: "@ + server@,
{
    joined("Server: ", server)
}

/// The line that says when health was last probed.
pub fn refresh_line(state: &TuiState) -> (r: String)
    ensures
        r@ == "Last refresh: "@ + (match state.refreshed_at {
            Some(at) => at@,
            None => "never"@,
        }),
{
    match &state.refreshed_at {
        Some(at) => joined("Last refresh: ", at.as_str()),
        None => joined("Last refresh: ", "never"),
    }
}

/// A text that may be missing, in words.
pub open spec fn or_none(value: Option<String>) -> Seq<char> {
    match value {
        Some(text) => text@,
        None => "none"@,
    }
}

fn push_or_none(out: &mut String, value: &Option<String>)
    ensures
        final(out)@ == old(out)@ + or_none(*value),
{
    match value {
        Some(text) => out.append(text.as_str()),
        None => out.append("none"),
    }
}

/// The line that says what the benchmark runs.
pub fn benchmark_config_line(args: &TuiArgs) -> (r: String)
    ensures
        r@ == "size="@ + text::decimal(args.bench_size_gib as nat) + "GiB lanes="@ + text::decimal(
            args.bench_lanes as nat,
        ) + " chunk="@ + text::decimal(args.bench_io_chunk_bytes as nat) + " no_disk="@
            + text::bool_word(args.bench_no_disk) + " auto_report="@ + or_none(
            args.auto_runtime_report,
        ) + " runtime_policy="@ + or_none(args.runtime_policy),
{
    let mut line = with_number("size=", args.bench_size_gib);
    line.append("GiB lanes=");
    push_decimal(&mut line, args.bench_lanes as u64);
    line.append(" chunk=");
    push_decimal(&mut line, args.bench_io_chunk_bytes as u64);
    line.append(" no_disk=");
    push_bool(&mut line, args.bench_no_disk);
    line.append(" auto_report=");
    push_or_none(&mut line, &args.auto_runtime_report);
    line.append(" runtime_policy=");
    push_or_none(&mut line, &args.runtime_policy);
    line
}

/// What is shown of the health of the server.
#[derive(Debug)]
pub struct HealthPanel {
    pub lines: Vec<String>,
    pub is_error: bool,
}

/// What is shown of the health of the server: its last answer, else the last error, else that there is
/// nothing yet. `timestamp` is the time of the last answer, written out.
pub fn health_panel(state: &TuiState, timestamp: &str) -> (r: HealthPanel)
    ensures
        match (state.health, state.error) {
            (Some(health), _) => {
                &&& !r.is_error
                &&& r.lines@.len() == 4
                &&& r.lines@[0]@ == "status: "@ + health.status@
                &&& r.lines@[1]@ == "version: "@ + health.version@
                &&& r.lines@[2]@ == "quic_listener: "@ + health.quic_listener@
                &&& r.lines@[3]@ == "timestamp: "@ + timestamp@
            },
            (None, Some(error)) => {
                &&& r.is_error
                &&& r.lines@.len() == 1
                &&& r.lines@[0]@ == "error: "@ + error@
            },
            (None, None) => {
                &&& !r.is_error
                &&& r.lines@.len() == 1
                &&& r.lines@[0]@ == "no data yet"@
            },
        },
{
    let mut lines: Vec<String> = Vec::new();
    match &state.health {
        Some(health) => {
            lines.push(joined("status: ", health.status.as_str()));
            lines.push(joined("version: ", health.version.as_str()));
            lines.push(joined("quic_listener: ", health.quic_listener.as_str()));
            lines.push(joined("timestamp: ", timestamp));
            HealthPanel { lines, is_error: false }
        },
        None => match &state.error {
            Some(error) => {
                lines.push(joined("error: ", error.as_str()));
                HealthPanel { lines, is_error: true }
            },
            None => {
                lines.push("no data yet".to_owned());
                HealthPanel { lines, is_error: false }
            },
        },
    }
}

/// What is shown of the last benchmark.
pub fn benchmark_panel(state: &TuiState) -> (r: String)
    ensures
        r@ == (if state.benchmark_running {
            "benchmark running..."@
        } else {
            match (state.benchmark_error, state.benchmark_report_json) {
                (Some(error), _) => "benchmark error: "@ + error@,
                (None, Some(report)) => report@,
                (None, None) => "no benchmark run yet"@,
            }
        }),
{
    if state.benchmark_running {
        return "benchmark running...".to_owned();
    }
    match &state.benchmark_error {
        Some(error) => joined("benchmark error: ", error.as_str()),
        None => match &state.benchmark_report_json {
            Some(report) => report.clone(),
            None => "no benchmark run yet".to_owned(),
        },
    }
}

} // verus!
