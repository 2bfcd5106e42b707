//! Tuning the number of lanes under load, and choosing lanes by what was tuned.

use crate::bench;
use crate::bench::{gib_to_bytes, source_uri, GIB};
use crate::lane_policy;
use crate::lane_policy::{
    select_lane_policy, LanePolicyEntry, LanePolicyStore, WorkloadProfile,
};
use crate::messages::{CreateTransferRequest, Timestamp, RESUME_CHUNK_SIZE_BYTES};
use crate::policy;
use crate::policy::PolicyEntry;
use crate::send::SendTransferReport;
use crate::text;
use crate::text::{joined, push_bool, push_decimal, trim_end_slashes, with_number};
use crate::throughput;
use crate::throughput::{highest, Throughput};
use crate::upload;
use vstd::prelude::*;
use vstd::string::*;

verus! {

/// The arguments of a tuning run.
#[derive(Debug)]
pub struct TuneLanesArgs {
    pub size_gib: u64,
    pub lanes: Vec<u32>,
    pub concurrency: u32,
    pub iterations: u32,
    pub io_chunk_bytes: usize,
    pub no_disk: bool,
    pub file_path: String,
    pub file_prefix: String,
    pub tenant_id: String,
    pub user_id: String,
    pub destination_prefix: String,
}

/// Whether a number of lanes is to be tried.
pub open spec fn is_candidate(lanes: Seq<u32>, n: u32) -> bool {
    n > 0 && lanes.contains(n)
}

/// Why a tuning run is not started.
pub open spec fn tune_fault(args: TuneLanesArgs) -> Option<Seq<char>> {
    if args.size_gib == 0 {
        Some("size_gib must be > 0"@)
    } else if args.concurrency == 0 {
        Some("concurrency must be > 0"@)
    } else if args.iterations == 0 {
        Some("iterations must be > 0"@)
    } else if args.io_chunk_bytes == 0 {
        Some("io_chunk_bytes must be > 0"@)
    } else if args.lanes@.len() == 0 {
        Some("lanes must contain at least one value"@)
    } else if forall|n: u32| !is_candidate(args.lanes@, n) {
        Some("lanes must contain values > 0"@)
    } else {
        None
    }
}

/// Whether numbers rise from each to the next.
pub open spec fn is_increasing(values: Seq<u32>) -> bool {
    forall|i: int, j: int| 0 <= i < j < values.len() ==> #[trigger] values[i] < #[trigger] values[j]
}

/// Puts a number into an increasing list, where it is not there already.
fn insert_distinct(values: &mut Vec<u32>, n: u32)
    requires
        is_increasing(old(values)@),
    ensures
        is_increasing(final(values)@),
        forall|x: u32|
            #![trigger final(values)@.contains(x)]
            final(values)@.contains(x) <==> old(values)@.contains(x) || x == n,
{
    let mut p: usize = 0;
    while p < values.len() && values[p] < n
        invariant
            is_increasing(values@),
            values@ == old(values)@,
            p <= values@.len(),
            forall|i: int| 0 <= i < p ==> #[trigger] values@[i] < n,
        decreases values@.len() - p,
    {
        p = p + 1;
    }
    if p < values.len() && values[p] == n {
        assert(old(values)@[p as int] == n);
        return;
    }
    let ghost before = values@;
    values.insert(p, n);
    proof {
        let after = values@;
        assert(after =~= before.insert(p as int, n));
        assert forall|i: int, j: int| 0 <= i < j < after.len() implies #[trigger] after[i]
            < #[trigger] after[j] by {
            let a = if i < p {
                i
            } else {
                i - 1
            };
            let b = if j < p {
                j
            } else {
                j - 1
            };
            if i != p && j != p {
                assert(after[i] == before[a] && after[j] == before[b]);
            } else if j == p {
                assert(after[i] == before[i]);
            } else {
                assert(after[j] == before[b]);
                assert(before[p as int] <= before[b]);
            }
        }
        assert forall|x: u32|
            #![trigger after.contains(x)]
            after.contains(x) <==> before.contains(x) || x == n by {
            if before.contains(x) {
                let k = before.index_of(x);
                if k < p {
                    assert(after[k] == x);
                } else {
                    assert(after[k + 1] == x);
                }
            }
            assert(after[p as int] == n);
            if after.contains(x) && x != n {
                let k = after.index_of(x);
                if k < p {
                    assert(before[k] == x);
                } else {
                    assert(before[k - 1] == x);
                }
            }
        }
    }
}

/// The numbers of lanes to try, each once, in rising order; or why a tuning run is not started.
pub fn lane_candidates(args: &TuneLanesArgs) -> (r: Result<Vec<u32>, String>)
    ensures
        match r {
            Ok(candidates) => {
                &&& tune_fault(*args) is None
                &&& is_increasing(candidates@)
                &&& forall|i: int, j: int|
                    0 <= i < j < candidates@.len() ==> #[trigger] candidates@[i]
                        < #[trigger] candidates@[j]
                &&& forall|n: u32|
                    #![trigger candidates@.contains(n)]
                    candidates@.contains(n) <==> is_candidate(args.lanes@, n)
            },
            Err(message) => tune_fault(*args) == Some(message@),
        },
{
    if args.size_gib == 0 {
        return Err("size_gib must be > 0".to_owned());
    }
    if args.concurrency == 0 {
        return Err("concurrency must be > 0".to_owned());
    }
    if args.iterations == 0 {
        return Err("iterations must be > 0".to_owned());
    }
    if args.io_chunk_bytes == 0 {
        return Err("io_chunk_bytes must be > 0".to_owned());
    }
    if args.lanes.len() == 0 {
        return Err("lanes must contain at least one value".to_owned());
    }
    let mut candidates: Vec<u32> = Vec::new();
    for i in 0..args.lanes.len()
        invariant
            is_increasing(candidates@),
            forall|n: u32|
                #![trigger candidates@.contains(n)]
                candidates@.contains(n) <==> is_candidate(args.lanes@.take(i as int), n),
    {
        let ghost seen = args.lanes@.take(i as int);
        let ghost next = args.lanes@.take(i + 1);
        let n: u32 = args.lanes[i];
        proof {
            assert forall|x: u32| next.contains(x) <==> seen.contains(x) || x == n by {
                if seen.contains(x) {
                    assert(next[seen.index_of(x)] == x);
                }
                assert(next[i as int] == n);
                if next.contains(x) && x != n {
                    assert(seen[next.index_of(x)] == x);
                }
            }
        }
        if n > 0 {
            insert_distinct(&mut candidates, n);
        }
    }
    proof {
        assert(args.lanes@.take(args.lanes@.len() as int) =~= args.lanes@);
    }
    if candidates.len() == 0 {
        proof {
            assert forall|n: u32| !is_candidate(args.lanes@, n) by {
                assert(!candidates@.contains(n));
            }
        }
        return Err("lanes must contain values > 0".to_owned());
    }
    proof {
        let n = candidates@[0];
        assert(candidates@.contains(n));
        assert(is_candidate(args.lanes@, n));
    }
    Ok(candidates)
}

/// What the destinations of a tuning run begin with.
pub open spec fn tune_prefix(args: TuneLanesArgs) -> Seq<char> {
    if args.no_disk {
        "null://benchmark/tune-lanes"@
    } else {
        text::without_end_slashes(args.destination_prefix@)
    }
}

/// The file name of one job.
pub open spec fn job_file_name_text(
    file_prefix: Seq<char>,
    size_gib: u64,
    lanes: u32,
    iteration: u32,
    job: u32,
) -> Seq<char> {
    file_prefix + "-"@ + text::decimal(size_gib as nat) + "g-l"@ + text::decimal(lanes as nat)
        + "-it"@ + text::decimal(iteration as nat) + "-job"@ + text::decimal(job as nat) + ".bin"@
}

pub fn job_file_name(file_prefix: &str, size_gib: u64, lanes: u32, iteration: u32, job: u32) -> (r:
    String)
    ensures
        r@ == job_file_name_text(file_prefix@, size_gib, lanes, iteration, job),
{
    let mut name = joined(file_prefix, "-");
    push_decimal(&mut name, size_gib);
    name.append("g-l");
    push_decimal(&mut name, lanes as u64);
    name.append("-it");
    push_decimal(&mut name, iteration as u64);
    name.append("-job");
    push_decimal(&mut name, job as u64);
    name.append(".bin");
    name
}

/// The request that one job of a tuning run registers its transfer with.
pub fn job_request(args: &TuneLanesArgs, lanes: u32, iteration: u32, job: u32) -> (r:
    CreateTransferRequest)
    requires
        args.size_gib * GIB <= u64::MAX,
    ensures
        ({
            let file_name = job_file_name_text(
                args.file_prefix@,
                args.size_gib,
                lanes,
                iteration,
                job,
            );
            bench::is_bench_request(
                r,
                args.tenant_id,
                args.user_id,
                bench::source_uri_text(args.no_disk, file_name, args.file_path@),
                tune_prefix(*args) + "/"@ + file_name,
                file_name,
                (args.size_gib * GIB) as u64,
            )
        }),
{
    let file_name = job_file_name(args.file_prefix.as_str(), args.size_gib, lanes, iteration, job);
    let mut destination_uri = if args.no_disk {
        "null://benchmark/tune-lanes".to_owned()
    } else {
        trim_end_slashes(args.destination_prefix.as_str())
    };
    destination_uri.append("/");
    destination_uri.append(file_name.as_str());
    CreateTransferRequest {
        tenant_id: args.tenant_id.clone(),
        user_id: args.user_id.clone(),
        source_uri: source_uri(args.no_disk, file_name.as_str(), args.file_path.as_str()),
        destination_uri,
        file_name,
        file_size_bytes: gib_to_bytes(args.size_gib),
        resume_chunk_size_bytes: RESUME_CHUNK_SIZE_BYTES,
        overwrite: true,
        immutable_destination: false,
    }
}

/// How the iterations with one number of lanes went.
#[derive(Debug, Clone, Copy, PartialEq, Eq, Structural)]
pub struct IterationTally {
    pub successful_runs: u32,
    pub failed_runs: u32,
}

/// How the jobs of one iteration went. The iteration counts only where no job failed.
#[derive(Debug, Clone, Copy, PartialEq, Eq, Structural)]
pub struct IterationOutcome {
    pub successful_jobs: u32,
    pub failed_jobs: u32,
    pub counts: bool,
}

impl IterationTally {
    pub fn new() -> (r: Self)
        ensures
            r == (IterationTally { successful_runs: 0, failed_runs: 0 }),
    {
        IterationTally { successful_runs: 0, failed_runs: 0 }
    }

    /// Adds an iteration of so many jobs of which so many succeeded.
    pub fn add_iteration(&mut self, concurrency: u32, successful_jobs: u32) -> (r: IterationOutcome)
        requires
            old(self).successful_runs + old(self).failed_runs < u32::MAX,
        ensures
            r.successful_jobs == successful_jobs,
            r.failed_jobs == (if successful_jobs < concurrency {
                concurrency - successful_jobs
            } else {
                0
            }),
            r.counts == (r.failed_jobs == 0),
            final(self).successful_runs == old(self).successful_runs + (if r.counts {
                1int
            } else {
                0int
            }),
            final(self).failed_runs == old(self).failed_runs + (if r.counts {
                0int
            } else {
                1int
            }),
    {
        let failed_jobs: u32 = concurrency.saturating_sub(successful_jobs);
        let counts = failed_jobs == 0;
        if counts {
            self.successful_runs = self.successful_runs + 1;
        } else {
            self.failed_runs = self.failed_runs + 1;
        }
        IterationOutcome { successful_jobs, failed_jobs, counts }
    }
}

/// The bytes that the jobs of an iteration streamed.
pub open spec fn jobs_sum(reports: Seq<SendTransferReport>) -> nat
    decreases reports.len(),
{
    if reports.len() == 0 {
        0
    } else {
        jobs_sum(reports.drop_last()) + reports.last().bytes_streamed_this_session as nat
    }
}

proof fn jobs_sum_of_prefix(reports: Seq<SendTransferReport>, n: int)
    requires
        0 <= n <= reports.len(),
    ensures
        jobs_sum(reports.take(n)) <= jobs_sum(reports),
    decreases reports.len(),
{
    if n < reports.len() {
        assert(reports.drop_last().take(n) =~= reports.take(n));
        jobs_sum_of_prefix(reports.drop_last(), n);
    } else {
        assert(reports.take(n) =~= reports);
    }
}

/// The bytes that the jobs of an iteration streamed, where they can be counted.
pub fn streamed_by_jobs(reports: &Vec<SendTransferReport>) -> (r: Option<u64>)
    ensures
        match r {
            Some(streamed) => streamed == jobs_sum(reports@),
            None => jobs_sum(reports@) > u64::MAX,
        },
{
    let mut streamed: u64 = 0;
    for i in 0..reports.len()
        invariant
            streamed == jobs_sum(reports@.take(i as int)),
    {
        proof {
            assert(reports@.take(i + 1).drop_last() =~= reports@.take(i as int));
            jobs_sum_of_prefix(reports@, i + 1);
        }
        match streamed.checked_add(reports[i].bytes_streamed_this_session) {
            Some(sum) => {
                streamed = sum;
            },
            None => {
                return None;
            },
        }
    }
    assert(reports@.take(reports@.len() as int) =~= reports@);
    Some(streamed)
}

/// What a number of lanes came to.
#[derive(Debug, Clone, Copy, PartialEq, Eq, Structural)]
pub struct TuneLanesCandidate {
    pub lanes: u32,
    pub aggregate_p50_gbps: Throughput,
    pub aggregate_p95_gbps: Throughput,
    pub successful_runs: u32,
    pub failed_runs: u32,
}

/// What a tuning run came to.
#[derive(Debug)]
pub struct TuneLanesReport {
    pub completed_at: Timestamp,
    pub size_gib: u64,
    pub concurrency: u32,
    pub io_chunk_bytes: usize,
    pub no_disk: bool,
    pub recommended_lanes: Option<u32>,
    pub candidates: Vec<TuneLanesCandidate>,
}

/// The rate of a candidate that is in the running: one that never succeeded is not.
pub open spec fn candidate_rate(candidate: TuneLanesCandidate) -> Option<Throughput> {
    if candidate.successful_runs > 0 {
        Some(candidate.aggregate_p50_gbps)
    } else {
        None
    }
}

/// The number of lanes with the highest middle rate, the last of several with the same.
pub open spec fn fastest_lanes(candidates: Seq<TuneLanesCandidate>) -> Option<u32> {
    match throughput::last_highest(
        candidates.map_values(|candidate: TuneLanesCandidate| candidate_rate(candidate)),
    ) {
        Some(i) => Some(candidates[i].lanes),
        None => None,
    }
}

pub fn recommended_lanes_from_candidates(candidates: &Vec<TuneLanesCandidate>) -> (r: Option<u32>)
    ensures
        r == fastest_lanes(candidates@),
        match r {
            Some(lanes) => exists|i: int|
                #![trigger candidates@[i]]
                {
                    &&& 0 <= i < candidates@.len()
                    &&& candidates@[i].lanes == lanes
                    &&& candidates@[i].successful_runs > 0
                    &&& forall|j: int|
                        0 <= j < candidates@.len() && (#[trigger] candidates@[j]).successful_runs > 0
                            ==> candidates@[j].aggregate_p50_gbps.rank()
                            <= candidates@[i].aggregate_p50_gbps.rank()
                },
            None => forall|j: int|
                0 <= j < candidates@.len() ==> (#[trigger] candidates@[j]).successful_runs == 0,
        },
{
    let ghost rate = |candidate: TuneLanesCandidate| candidate_rate(candidate);
    let mut rates: Vec<Option<Throughput>> = Vec::new();
    for i in 0..candidates.len()
        invariant
            rate == (|candidate: TuneLanesCandidate| candidate_rate(candidate)),
            rates@ == candidates@.map_values(rate).take(i as int),
    {
        if candidates[i].successful_runs > 0 {
            rates.push(Some(candidates[i].aggregate_p50_gbps));
        } else {
            rates.push(None);
        }
        assert(rates@ =~= candidates@.map_values(rate).take(i + 1));
    }
    proof {
        assert(rates@ =~= candidates@.map_values(rate));
        the_fastest_candidate_is_recommended(candidates@);
    }
    match highest(&rates) {
        Some(i) => Some(candidates[i].lanes),
        None => None,
    }
}

/// The number of lanes that a report recommends: the one it names, else the fastest.
pub open spec fn report_lanes(report: TuneLanesReport) -> Option<u32> {
    match report.recommended_lanes {
        Some(lanes) => Some(lanes),
        None => fastest_lanes(report.candidates@),
    }
}

pub fn recommended_lanes_from_report(report: &TuneLanesReport) -> (r: Option<u32>)
    ensures
        r == report_lanes(*report),
        report.recommended_lanes is Some ==> r == report.recommended_lanes,
{
    match report.recommended_lanes {
        Some(lanes) => Some(lanes),
        None => recommended_lanes_from_candidates(&report.candidates),
    }
}

/// The kind of workload that a report was made for.
pub open spec fn report_profile(report: TuneLanesReport) -> WorkloadProfile {
    WorkloadProfile {
        size_gib: report.size_gib,
        concurrency: report.concurrency,
        io_chunk_bytes: report.io_chunk_bytes,
        no_disk: report.no_disk,
    }
}

fn profile_of(report: &TuneLanesReport) -> (r: WorkloadProfile)
    ensures
        r == report_profile(*report),
{
    WorkloadProfile {
        size_gib: report.size_gib,
        concurrency: report.concurrency,
        io_chunk_bytes: report.io_chunk_bytes,
        no_disk: report.no_disk,
    }
}

/// The position of the first candidate with this number of lanes.
pub open spec fn candidate_position(candidates: Seq<TuneLanesCandidate>, lanes: u32) -> Option<int>
    decreases candidates.len(),
{
    if candidates.len() == 0 {
        None
    } else {
        match candidate_position(candidates.drop_last(), lanes) {
            Some(i) => Some(i),
            None => if candidates.last().lanes == lanes {
                Some(candidates.len() - 1)
            } else {
                None
            },
        }
    }
}

proof fn candidate_position_extends(candidates: Seq<TuneLanesCandidate>, n: int, lanes: u32)
    requires
        0 <= n <= candidates.len(),
        candidate_position(candidates.take(n), lanes) is Some,
    ensures
        candidate_position(candidates, lanes) == candidate_position(candidates.take(n), lanes),
    decreases candidates.len(),
{
    if n < candidates.len() {
        assert(candidates.drop_last().take(n) =~= candidates.take(n));
        candidate_position_extends(candidates.drop_last(), n, lanes);
    } else {
        assert(candidates.take(n) =~= candidates);
    }
}

/// The middle and the high rate of the first candidate with this number of lanes; zero where there is
/// none.
fn rates_of(candidates: &Vec<TuneLanesCandidate>, lanes: u32) -> (r: (Throughput, Throughput))
    ensures
        r == (match candidate_position(candidates@, lanes) {
            Some(i) => (candidates@[i].aggregate_p50_gbps, candidates@[i].aggregate_p95_gbps),
            None => (Throughput { bits: 0 }, Throughput { bits: 0 }),
        }),
{
    for i in 0..candidates.len()
        invariant
            candidate_position(candidates@.take(i as int), lanes) is None,
    {
        proof {
            assert(candidates@.take(i + 1).drop_last() =~= candidates@.take(i as int));
        }
        if candidates[i].lanes == lanes {
            proof {
                candidate_position_extends(candidates@, i + 1, lanes);
            }
            return (candidates[i].aggregate_p50_gbps, candidates[i].aggregate_p95_gbps);
        }
    }
    proof {
        assert(candidates@.take(candidates@.len() as int) =~= candidates@);
    }
    (Throughput::zero(), Throughput::zero())
}

/// The policy entry that a tuning run leads to. `json_out` is where its report was written.
pub fn tuned_policy_entry(report: &TuneLanesReport, json_out: Option<&str>) -> (r: Result<
    LanePolicyEntry,
    String,
>)
    ensures
        match r {
            Ok(entry) => {
                &&& report_lanes(*report) == Some(entry.recommended_lanes)
                &&& lane_policy::lane_entry_fault(entry) is None
                &&& entry.profile == report_profile(*report)
                &&& entry.profile.size_gib == report.size_gib
                &&& entry.profile.concurrency == report.concurrency
                &&& entry.profile.io_chunk_bytes == report.io_chunk_bytes
                &&& entry.profile.no_disk == report.no_disk
                &&& entry.source@ == (match json_out {
                    Some(path) => "tune-lanes report "@ + path@,
                    None => "transfer tune-lanes"@,
                })
                &&& entry.tuned_at == report.completed_at
                &&& (entry.aggregate_p50_gbps, entry.aggregate_p95_gbps) == (
                match candidate_position(report.candidates@, entry.recommended_lanes) {
                    Some(i) => (
                        report.candidates@[i].aggregate_p50_gbps,
                        report.candidates@[i].aggregate_p95_gbps,
                    ),
                    None => (Throughput { bits: 0 }, Throughput { bits: 0 }),
                })
            },
            Err(message) => {
                &&& !(report_lanes(*report) matches Some(lanes) && lanes > 0)
                &&& message@
                    == "cannot persist lane policy: tune-lanes report has no recommended lanes"@
            },
        },
{
    let recommended_lanes: u32 = match recommended_lanes_from_report(report) {
        Some(lanes) => lanes,
        None => 0,
    };
    if recommended_lanes == 0 {
        return Err(
            "cannot persist lane policy: tune-lanes report has no recommended lanes".to_owned(),
        );
    }
    let (aggregate_p50_gbps, aggregate_p95_gbps) = rates_of(&report.candidates, recommended_lanes);
    Ok(
        LanePolicyEntry {
            profile: profile_of(report),
            recommended_lanes,
            source: match json_out {
                Some(path) => joined("tune-lanes report ", path),
                None => "transfer tune-lanes".to_owned(),
            },
            tuned_at: report.completed_at,
            aggregate_p50_gbps,
            aggregate_p95_gbps,
        },
    )
}

/// What is to be done next to choose the lanes of a benchmark.
#[derive(Debug)]
pub enum LaneStep {
    ReadReport,
    ReadPolicy,
    Use { lanes: u32, note: Option<String> },
}

/// What is done where nothing was found: ask the policy if there is one, else use what is configured.
pub open spec fn fallback_step(configured_lanes: u32, has_policy: bool) -> LaneStep {
    if has_policy {
        LaneStep::ReadPolicy
    } else {
        LaneStep::Use { lanes: configured_lanes, note: None }
    }
}

/// Begins the choice of lanes: a report comes before a policy, and both before what is configured.
pub fn begin_lane_choice(configured_lanes: u32, has_report: bool, has_policy: bool) -> (r: Result<
    LaneStep,
    String,
>)
    ensures
        match r {
            Ok(step) => configured_lanes > 0 && step == (if has_report {
                LaneStep::ReadReport
            } else {
                fallback_step(configured_lanes, has_policy)
            }),
            Err(message) => configured_lanes == 0 && message@ == "lanes must be > 0"@,
        },
{
    if configured_lanes == 0 {
        return Err("lanes must be > 0".to_owned());
    }
    if has_report {
        return Ok(LaneStep::ReadReport);
    }
    if has_policy {
        return Ok(LaneStep::ReadPolicy);
    }
    Ok(LaneStep::Use { lanes: configured_lanes, note: None })
}

/// The words for a kind of workload.
pub open spec fn profile_words(profile: WorkloadProfile) -> Seq<char> {
    "size_gib="@ + text::decimal(profile.size_gib as nat) + " concurrency="@ + text::decimal(
        profile.concurrency as nat,
    ) + " io_chunk_bytes="@ + text::decimal(profile.io_chunk_bytes as nat) + " no_disk="@
        + text::bool_word(profile.no_disk)
}

fn push_profile_words(out: &mut String, profile: &WorkloadProfile)
    ensures
        final(out)@ == old(out)@ + profile_words(*profile),
{
    out.append("size_gib=");
    push_decimal(out, profile.size_gib);
    out.append(" concurrency=");
    push_decimal(out, profile.concurrency as u64);
    out.append(" io_chunk_bytes=");
    push_decimal(out, profile.io_chunk_bytes as u64);
    out.append(" no_disk=");
    push_bool(out, profile.no_disk);
    assert(out@ =~= old(out)@ + profile_words(*profile));
}

/// What is said of lanes that a report recommends.
pub open spec fn report_note(
    lanes: u32,
    report_path: Seq<char>,
    found: WorkloadProfile,
    requested: WorkloadProfile,
) -> Seq<char> {
    let choice = "auto-selected lanes="@ + text::decimal(lanes as nat) + " from "@ + report_path;
    if found == requested {
        choice
    } else {
        choice + " (report profile "@ + profile_words(found) + ")"@
    }
}

/// Chooses by the report that was read.
pub fn choose_by_report(
    configured_lanes: u32,
    report: &TuneLanesReport,
    report_path: &str,
    requested: &WorkloadProfile,
    has_policy: bool,
) -> (r: LaneStep)
    ensures
        match report_lanes(*report) {
            Some(lanes) if lanes > 0 => r matches LaneStep::Use { lanes: used, note: Some(note) }
                && {
                &&& used == lanes
                &&& note@ == report_note(lanes, report_path@, report_profile(*report), *requested)
            },
            _ => r == fallback_step(configured_lanes, has_policy),
        },
{
    let recommended: u32 = match recommended_lanes_from_report(report) {
        Some(lanes) => lanes,
        None => 0,
    };
    if recommended > 0 {
        let found = profile_of(report);
        let mut note = with_number("auto-selected lanes=", recommended as u64);
        note.append(" from ");
        note.append(report_path);
        if found != *requested {
            note.append(" (report profile ");
            push_profile_words(&mut note, &found);
            note.append(")");
        }
        return LaneStep::Use { lanes: recommended, note: Some(note) };
    }
    if has_policy {
        LaneStep::ReadPolicy
    } else {
        LaneStep::Use { lanes: configured_lanes, note: None }
    }
}

/// What is said of lanes that a policy recommends.
pub open spec fn policy_note(
    lanes: u32,
    policy_path: Seq<char>,
    found: WorkloadProfile,
    requested: WorkloadProfile,
) -> Seq<char> {
    let choice = "auto-selected lanes="@ + text::decimal(lanes as nat) + " from lane policy "@
        + policy_path;
    if found == requested {
        choice
    } else {
        choice + " fallback profile "@ + profile_words(found)
    }
}

/// Chooses by the policy that was read: the entry that suits best, else what is configured.
pub fn choose_by_policy(
    configured_lanes: u32,
    store: &LanePolicyStore,
    policy_path: &str,
    requested: &WorkloadProfile,
) -> (r: (u32, Option<String>))
    ensures
        match r.1 {
            Some(note) => exists|i: int| #[trigger]
                policy::is_choice(store.entries@, requested.slot(), i) && {
                    let entry = store.entries@[i];
                    &&& r.0 == entry.recommended_lanes
                    &&& note@ == policy_note(r.0, policy_path@, entry.profile, *requested)
                },
            None => {
                &&& r.0 == configured_lanes
                &&& forall|i: int|
                    0 <= i < store.entries@.len() ==> !(#[trigger] store.entries@[i]).is_usable()
            },
        },
{
    match select_lane_policy(store, requested) {
        Some(selection) => {
            let lanes: u32 = selection.entry.recommended_lanes;
            let mut note = with_number("auto-selected lanes=", lanes as u64);
            note.append(" from lane policy ");
            note.append(policy_path);
            if !selection.exact_profile_match {
                note.append(" fallback profile ");
                push_profile_words(&mut note, &selection.entry.profile);
            }
            (lanes, Some(note))
        },
        None => (configured_lanes, None),
    }
}

/// The lanes that candidates recommend are those of one that succeeded, and none that succeeded has a
/// higher middle rate; of several with that rate it is the last. Nothing is recommended exactly where
/// none succeeded.
pub proof fn the_fastest_candidate_is_recommended(candidates: Seq<TuneLanesCandidate>)
    ensures
        match fastest_lanes(candidates) {
            Some(lanes) => exists|i: int|
                #![trigger candidates[i]]
                {
                    &&& 0 <= i < candidates.len()
                    &&& candidates[i].lanes == lanes
                    &&& candidates[i].successful_runs > 0
                    &&& forall|j: int|
                        0 <= j < candidates.len() && (#[trigger] candidates[j]).successful_runs > 0
                            ==> candidates[j].aggregate_p50_gbps.rank()
                            <= candidates[i].aggregate_p50_gbps.rank()
                    &&& forall|j: int|
                        i < j < candidates.len() && (#[trigger] candidates[j]).successful_runs > 0
                            ==> candidates[j].aggregate_p50_gbps.rank()
                            < candidates[i].aggregate_p50_gbps.rank()
                },
            None => forall|j: int|
                0 <= j < candidates.len() ==> (#[trigger] candidates[j]).successful_runs == 0,
        },
{
    let rates = candidates.map_values(|candidate: TuneLanesCandidate| candidate_rate(candidate));
    throughput::last_highest_is_highest(rates);
    match throughput::last_highest(rates) {
        Some(i) => {
            assert(throughput::is_last_highest(rates, i));
            assert(rates[i] == candidate_rate(candidates[i]));
            assert(candidates[i].successful_runs > 0);
            assert forall|j: int|
                0 <= j < candidates.len() && (#[trigger] candidates[j]).successful_runs
                    > 0 implies candidates[j].aggregate_p50_gbps.rank()
                <= candidates[i].aggregate_p50_gbps.rank() && (i < j
                ==> candidates[j].aggregate_p50_gbps.rank()
                < candidates[i].aggregate_p50_gbps.rank()) by {
                assert(rates[j] == candidate_rate(candidates[j]));
            }
        },
        None => {
            assert forall|j: int| 0 <= j < candidates.len() implies (
            #[trigger] candidates[j]).successful_runs == 0 by {
                assert(rates[j] == candidate_rate(candidates[j]));
            }
        },
    }
}

/// Only the middle rate and whether a candidate succeeded at all sway the recommendation: high rates
/// do not, nor how often a candidate succeeded or failed.
pub proof fn high_rates_do_not_sway_the_recommendation(
    a: Seq<TuneLanesCandidate>,
    b: Seq<TuneLanesCandidate>,
)
    requires
        a.len() == b.len(),
        forall|i: int|
            0 <= i < a.len() ==> {
                &&& (#[trigger] a[i]).lanes == b[i].lanes
                &&& a[i].aggregate_p50_gbps == b[i].aggregate_p50_gbps
                &&& a[i].successful_runs > 0 <==> b[i].successful_runs > 0
            },
    ensures
        fastest_lanes(a) == fastest_lanes(b),
{
    let rates = a.map_values(|candidate: TuneLanesCandidate| candidate_rate(candidate));
    let others = b.map_values(|candidate: TuneLanesCandidate| candidate_rate(candidate));
    assert forall|i: int| 0 <= i < a.len() implies #[trigger] rates[i] == others[i] by {
        assert(a[i].lanes == b[i].lanes);
    }
    assert(rates =~= others);
    throughput::last_highest_is_highest(rates);
}

/// What a report recommends: the number of lanes that it names, whatever its candidates; without one,
/// what its candidates recommend.
pub proof fn a_named_number_of_lanes_comes_first(report: TuneLanesReport)
    ensures
        report.recommended_lanes is Some ==> report_lanes(report) == report.recommended_lanes,
        report.recommended_lanes is None ==> report_lanes(report) == fastest_lanes(
            report.candidates@,
        ),
{
}

/// The rates that a tuned entry shows are those of the first candidate with its number of lanes.
pub proof fn the_first_candidate_with_its_lanes_is_shown(
    candidates: Seq<TuneLanesCandidate>,
    lanes: u32,
)
    ensures
        match candidate_position(candidates, lanes) {
            Some(i) => {
                &&& 0 <= i < candidates.len()
                &&& candidates[i].lanes == lanes
                &&& forall|j: int| 0 <= j < i ==> (#[trigger] candidates[j]).lanes != lanes
            },
            None => forall|j: int|
                0 <= j < candidates.len() ==> (#[trigger] candidates[j]).lanes != lanes,
        },
    decreases candidates.len(),
{
    if candidates.len() > 0 {
        let rest = candidates.drop_last();
        the_first_candidate_with_its_lanes_is_shown(rest, lanes);
        assert(forall|j: int| 0 <= j < rest.len() ==> #[trigger] candidates[j] == rest[j]);
    }
}

/// The bytes that jobs streamed add up, job by job: each counts with what it streamed in its session.
pub proof fn streamed_bytes_add_up(
    some: Seq<SendTransferReport>,
    others: Seq<SendTransferReport>,
    report: SendTransferReport,
)
    ensures
        jobs_sum(Seq::empty()) == 0,
        jobs_sum(some + others) == jobs_sum(some) + jobs_sum(others),
        jobs_sum(seq![report]) == report.bytes_streamed_this_session,
    decreases others.len(),
{
    reveal_with_fuel(jobs_sum, 2);
    if others.len() == 0 {
        assert(some + others =~= some);
    } else {
        streamed_bytes_add_up(some, others.drop_last(), report);
        assert((some + others).drop_last() =~= some + others.drop_last());
    }
}

/// A tuning run is started exactly where its size, concurrency, iterations and chunk size are not
/// zero and some number of lanes is not.
pub proof fn tuning_runs_try_something(args: TuneLanesArgs)
    ensures
        tune_fault(args) is None <==> {
            &&& args.size_gib > 0
            &&& args.concurrency > 0
            &&& args.iterations > 0
            &&& args.io_chunk_bytes > 0
            &&& exists|i: int| 0 <= i < args.lanes@.len() && #[trigger] args.lanes@[i] > 0
        },
{
    if exists|i: int| 0 <= i < args.lanes@.len() && #[trigger] args.lanes@[i] > 0 {
        let i = choose|i: int| 0 <= i < args.lanes@.len() && #[trigger] args.lanes@[i] > 0;
        assert(is_candidate(args.lanes@, args.lanes@[i]));
    }
    if !(forall|n: u32| !is_candidate(args.lanes@, n)) {
        let n = choose|n: u32| is_candidate(args.lanes@, n);
        let i = args.lanes@.index_of(n);
        assert(args.lanes@[i] > 0);
    }
}

/// Numbers of lanes that are tried are numbers that were given, all of them but zero.
pub proof fn tried_lanes_were_given(lanes: Seq<u32>, n: u32)
    ensures
        is_candidate(lanes, n) <==> n != 0 && exists|i: int|
            0 <= i < lanes.len() && #[trigger] lanes[i] == n,
{
}

/// Without a report that recommends something, a policy is asked where there is one, and only then
/// are the configured lanes used, without a note.
pub proof fn configured_lanes_come_last(configured_lanes: u32)
    ensures
        fallback_step(configured_lanes, true) is ReadPolicy,
        fallback_step(configured_lanes, false) == (LaneStep::Use {
            lanes: configured_lanes,
            note: None,
        }),
{
}

/// The part of a job's file name that tells it from the other jobs of its run.
spec fn job_words(lanes: u32, iteration: u32, job: u32) -> Seq<char> {
    text::decimal(lanes as nat) + ("-it"@ + (text::decimal(iteration as nat) + ("-job"@ + (
    text::decimal(job as nat) + ".bin"@))))
}

proof fn job_file_names_end_with_job_words(
    file_prefix: Seq<char>,
    size_gib: u64,
    lanes: u32,
    iteration: u32,
    job: u32,
)
    ensures
        job_file_name_text(file_prefix, size_gib, lanes, iteration, job) == file_prefix + "-"@
            + text::decimal(size_gib as nat) + "g-l"@ + job_words(lanes, iteration, job),
{
    let opening = file_prefix + "-"@ + text::decimal(size_gib as nat) + "g-l"@;
    let l = text::decimal(lanes as nat);
    let i = text::decimal(iteration as nat);
    let j = text::decimal(job as nat);
    let to_lanes = opening + l;
    let to_turn = to_lanes + "-it"@;
    let to_iteration = to_turn + i;
    let to_job = to_iteration + "-job"@;
    text::joining_is_associative(to_job, j, ".bin"@);
    text::joining_is_associative(to_iteration, "-job"@, j + ".bin"@);
    text::joining_is_associative(to_turn, i, "-job"@ + (j + ".bin"@));
    text::joining_is_associative(to_lanes, "-it"@, i + ("-job"@ + (j + ".bin"@)));
    text::joining_is_associative(opening, l, "-it"@ + (i + ("-job"@ + (j + ".bin"@))));
}

proof fn job_words_are_distinct(a: (u32, u32, u32), b: (u32, u32, u32))
    requires
        job_words(a.0, a.1, a.2) == job_words(b.0, b.1, b.2),
    ensures
        a == b,
{
    reveal_strlit("-it");
    reveal_strlit("-job");
    reveal_strlit(".bin");
    let jobs_a = text::decimal(a.2 as nat) + ".bin"@;
    let jobs_b = text::decimal(b.2 as nat) + ".bin"@;
    let turns_a = text::decimal(a.1 as nat) + ("-job"@ + jobs_a);
    let turns_b = text::decimal(b.1 as nat) + ("-job"@ + jobs_b);
    text::numerals_end_with_their_digits(
        a.0 as nat,
        b.0 as nat,
        "-it"@ + turns_a,
        "-it"@ + turns_b,
    );
    assert(("-it"@ + turns_a).skip(3) =~= turns_a);
    assert(("-it"@ + turns_b).skip(3) =~= turns_b);
    text::numerals_end_with_their_digits(
        a.1 as nat,
        b.1 as nat,
        "-job"@ + jobs_a,
        "-job"@ + jobs_b,
    );
    assert(("-job"@ + jobs_a).skip(4) =~= jobs_a);
    assert(("-job"@ + jobs_b).skip(4) =~= jobs_b);
    text::numerals_end_with_their_digits(a.2 as nat, b.2 as nat, ".bin"@, ".bin"@);
}

/// No two jobs of a tuning run share a file: a job is told from the others by its number of lanes, its
/// iteration and its own number.
pub proof fn job_files_are_distinct(
    file_prefix: Seq<char>,
    size_gib: u64,
    a: (u32, u32, u32),
    b: (u32, u32, u32),
)
    ensures
        job_file_name_text(file_prefix, size_gib, a.0, a.1, a.2) == job_file_name_text(
            file_prefix,
            size_gib,
            b.0,
            b.1,
            b.2,
        ) ==> a == b,
{
    let opening = file_prefix + "-"@ + text::decimal(size_gib as nat) + "g-l"@;
    let words_a = job_words(a.0, a.1, a.2);
    let words_b = job_words(b.0, b.1, b.2);
    job_file_names_end_with_job_words(file_prefix, size_gib, a.0, a.1, a.2);
    job_file_names_end_with_job_words(file_prefix, size_gib, b.0, b.1, b.2);
    if opening + words_a == opening + words_b {
        assert((opening + words_a).skip(opening.len() as int) =~= words_a);
        assert((opening + words_b).skip(opening.len() as int) =~= words_b);
        job_words_are_distinct(a, b);
    }
}

/// Jobs of a tuning run without a disk are sent to destinations whose payload is dropped; those of one
/// with a disk go below the destination that was told.
pub proof fn tuning_jobs_go_where_they_are_told(args: TuneLanesArgs, rest: Seq<char>)
    ensures
        args.no_disk ==> upload::is_null_sink(tune_prefix(args) + rest),
        !args.no_disk ==> tune_prefix(args) == text::without_end_slashes(args.destination_prefix@),
{
    reveal_strlit("null://");
    reveal_strlit("null://benchmark/tune-lanes");
    if args.no_disk {
        assert("null://"@ =~= (tune_prefix(args) + rest).take(7));
    }
}

/// The kind of workload of a report is the one that it was made for.
pub proof fn reports_are_for_their_workload(report: TuneLanesReport)
    ensures
        report_profile(report).size_gib == report.size_gib,
        report_profile(report).concurrency == report.concurrency,
        report_profile(report).io_chunk_bytes == report.io_chunk_bytes,
        report_profile(report).no_disk == report.no_disk,
{
}

/// Why a tuning run is not started is told of the first value that is wrong, whatever follows it.
pub proof fn tuning_runs_are_told_their_first_fault(a: TuneLanesArgs, b: TuneLanesArgs)
    ensures
        ({
            let same = tune_fault(a) == tune_fault(b);
            let sized = a.size_gib > 0 && b.size_gib > 0;
            let shared = sized && a.concurrency > 0 && b.concurrency > 0;
            let repeated = shared && a.iterations > 0 && b.iterations > 0;
            let chunked = repeated && a.io_chunk_bytes > 0 && b.io_chunk_bytes > 0;
            &&& a.size_gib == 0 && b.size_gib == 0 ==> same
            &&& sized && a.concurrency == 0 && b.concurrency == 0 ==> same
            &&& shared && a.iterations == 0 && b.iterations == 0 ==> same
            &&& repeated && a.io_chunk_bytes == 0 && b.io_chunk_bytes == 0 ==> same
            &&& chunked && a.lanes@.len() == 0 && b.lanes@.len() == 0 ==> same
        }),
{
}

} // verus!
