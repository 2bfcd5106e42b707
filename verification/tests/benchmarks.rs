use metra::bench::{
    bench_file_name, bench_request, bench_source, best_sizes, check_bench_request, check_compare,
    check_matrix, check_series, compare_bench_args, compare_run, gib_to_bytes, has_byte_length,
    matrix_bench_args, matrix_run, plan_matrix, series_compare_args, summarize_matrix, BenchArgs,
    CompareArgs, CompareSeriesArgs, MatrixArgs, SeriesRow,
};
use metra::cli::TuiArgs;
use metra::lane_policy::{LanePolicyEntry, LanePolicyStore, WorkloadProfile};
use metra::messages::{HealthResponse, Timestamp};
use metra::send::{PayloadSource, SendTransferReport};
use metra::throughput::Throughput;
use metra::tui::{
    benchmark_config_line, benchmark_panel, command_for_key, health_panel, refresh_line,
    server_line, tui_bench_args, TuiCommand, TuiState,
};
use metra::tune::{
    begin_lane_choice, choose_by_policy, choose_by_report, job_request, lane_candidates,
    recommended_lanes_from_candidates, recommended_lanes_from_report, streamed_by_jobs,
    tuned_policy_entry, IterationTally, LaneStep, TuneLanesArgs, TuneLanesCandidate, TuneLanesReport,
};

const AT: Timestamp = Timestamp { secs: 7, nanos: 0 };

fn rate(value: f64) -> Throughput {
    Throughput {
        bits: value.to_bits(),
    }
}

fn bench_args(no_disk: bool) -> BenchArgs {
    BenchArgs {
        size_gib: 2,
        file_path: "/tmp/x.bin".to_owned(),
        tenant_id: "bench-tenant".to_owned(),
        user_id: "bench-user".to_owned(),
        destination_uri: "local://benchmark/x.bin".to_owned(),
        quic_addr: None,
        io_chunk_bytes: 4,
        lanes: 1,
        no_disk,
        auto_lanes_report: None,
        lane_policy: None,
        auto_runtime_report: None,
        runtime_policy: None,
    }
}

fn matrix_args(no_disk: bool) -> MatrixArgs {
    MatrixArgs {
        sizes_gib: vec![4, 16],
        lanes: vec![1, 2],
        io_chunk_bytes: vec![64, 32],
        tenant_id: "bench-tenant".to_owned(),
        user_id: "bench-user".to_owned(),
        destination_prefix: "local://benchmark//".to_owned(),
        quic_addr: Some("127.0.0.1:1".to_owned()),
        no_disk,
        auto_lanes_report: Some("r".to_owned()),
        lane_policy: Some("p".to_owned()),
    }
}

fn report(gbps: f64) -> SendTransferReport {
    SendTransferReport {
        transfer_id: 3,
        file_path: "/tmp/r".to_owned(),
        file_size_bytes: 10,
        effective_lanes: 2,
        lane_selection: Some("note".to_owned()),
        resumed_from_bytes: 0,
        bytes_streamed_this_session: 10,
        total_streamed_bytes: 10,
        elapsed_ms: 5,
        average_gbps: rate(gbps),
        final_status: "Completed".to_owned(),
        message: "done".to_owned(),
    }
}

#[test]
fn benchmark_requests() {
    assert_eq!(bench_file_name(Some("x.bin")), "x.bin");
    assert_eq!(bench_file_name(None), "metra-bench.bin");
    assert_eq!(gib_to_bytes(2), 2 * 1024 * 1024 * 1024);
    assert!(has_byte_length((1 << 34) - 1));
    assert!(!has_byte_length(1 << 34));

    let request = bench_request(&bench_args(false), "x.bin");
    assert_eq!(request.source_uri, "file:///tmp/x.bin");
    assert_eq!(request.destination_uri, "local://benchmark/x.bin");
    assert_eq!(request.file_name, "x.bin");
    assert_eq!(request.file_size_bytes, 2_147_483_648);
    assert_eq!(request.resume_chunk_size_bytes, 1_048_576);
    assert!(request.overwrite);
    assert!(!request.immutable_destination);
    assert!(check_bench_request(&request, "benchmark").is_ok());

    let request = bench_request(&bench_args(true), "x.bin");
    assert_eq!(request.source_uri, "generated://zeros/x.bin");
    assert_eq!(request.destination_uri, "null://benchmark/x.bin");

    let mut bad = bench_args(true);
    bad.user_id = String::new();
    assert_eq!(
        check_bench_request(&bench_request(&bad, "x.bin"), "benchmark").err(),
        Some(
            "invalid benchmark transfer request: user_id must match [a-zA-Z0-9_-] and be 1..=64 \
             chars"
                .to_owned()
        )
    );

    assert!(matches!(
        bench_source(true, "/tmp/x", 99),
        PayloadSource::GeneratedZeros { label } if label == "generated://zeros/99"
    ));
    assert!(matches!(
        bench_source(false, "/tmp/x", 99),
        PayloadSource::File(path) if path == "/tmp/x"
    ));
}

#[test]
fn a_matrix_runs_every_combination_in_order() {
    let args = matrix_args(false);
    assert!(check_matrix(&args).is_ok());
    let plan = plan_matrix(&args);
    let names: Vec<&str> = plan.iter().map(|cell| cell.file_name.as_str()).collect();
    assert_eq!(
        names,
        vec![
            "metra-bench-4g-l1-c64.bin",
            "metra-bench-4g-l1-c32.bin",
            "metra-bench-4g-l2-c64.bin",
            "metra-bench-4g-l2-c32.bin",
            "metra-bench-16g-l1-c64.bin",
            "metra-bench-16g-l1-c32.bin",
            "metra-bench-16g-l2-c64.bin",
            "metra-bench-16g-l2-c32.bin",
        ]
    );
    assert_eq!(
        plan[2].destination_uri,
        "local://benchmark/metra-bench-4g-l2-c64.bin"
    );
    assert_eq!(
        plan_matrix(&matrix_args(true))[0].destination_uri,
        "null://benchmark/metra-bench-4g-l1-c64.bin"
    );
    let run = matrix_bench_args(&args, &plan[7], "/tmp/m");
    assert_eq!((run.size_gib, run.lanes, run.io_chunk_bytes), (16, 2, 32));
    assert_eq!(run.file_path, "/tmp/m");
    assert_eq!(run.quic_addr, Some("127.0.0.1:1".to_owned()));
    assert_eq!(run.auto_lanes_report, Some("r".to_owned()));
    assert_eq!(run.lane_policy, Some("p".to_owned()));
}

#[test]
fn matrices_are_checked_in_order() {
    let fault = |change: &dyn Fn(&mut MatrixArgs)| {
        let mut args = matrix_args(false);
        change(&mut args);
        check_matrix(&args).expect_err("fault")
    };
    assert_eq!(
        fault(&|args| {
            args.sizes_gib.clear();
            args.lanes.clear();
        }),
        "sizes_gib must contain at least one value"
    );
    assert_eq!(fault(&|args| args.lanes.clear()), "lanes must contain at least one value");
    assert_eq!(
        fault(&|args| args.io_chunk_bytes.clear()),
        "io_chunk_bytes must contain at least one value"
    );
    assert_eq!(
        fault(&|args| {
            args.sizes_gib[1] = 0;
            args.lanes[0] = 0;
        }),
        "sizes_gib values must be > 0"
    );
    assert_eq!(fault(&|args| args.lanes[1] = 0), "lanes values must be > 0");
    assert_eq!(
        fault(&|args| args.io_chunk_bytes[0] = 0),
        "io_chunk_bytes values must be > 0"
    );
}

#[test]
fn a_matrix_is_summed_up() {
    let plan = plan_matrix(&matrix_args(false));
    let runs = vec![
        matrix_run(&plan[0], "/f0", Ok(report(1.0))),
        matrix_run(&plan[1], "/f1", Ok(report(3.0))),
        matrix_run(&plan[2], "/f2", Err("boom".to_owned())),
        matrix_run(&plan[3], "/f3", Ok(report(3.0))),
    ];
    assert!(runs[0].success);
    assert_eq!(runs[0].file_path, "/tmp/r");
    assert_eq!(runs[0].effective_lanes, Some(2));
    assert_eq!(runs[0].average_gbps, Some(rate(1.0)));
    assert!(!runs[2].success);
    assert_eq!(runs[2].file_path, "/f2");
    assert_eq!(runs[2].error, Some("boom".to_owned()));
    assert_eq!(runs[2].average_gbps, None);
    let summary = summarize_matrix(&runs);
    assert_eq!(
        (summary.total_runs, summary.successful_runs, summary.failed_runs),
        (4, 3, 1)
    );
    assert_eq!(summary.best_run, Some(3));
    let nothing = summarize_matrix(&vec![matrix_run(&plan[0], "/f", Err("x".to_owned()))]);
    assert_eq!(nothing.best_run, None);
}

#[test]
fn comparisons_and_series_are_planned() {
    let mut args = CompareArgs {
        size_gib: 2,
        file_path: "/tmp/c".to_owned(),
        tenant_id: "t".to_owned(),
        user_id: "u".to_owned(),
        destination_uri: "local://c".to_owned(),
        quic_addr: None,
        io_chunk_bytes: 8,
        lanes: 3,
        iterations: 1,
        cleanup_file: true,
    };
    assert!(check_compare(&args).is_ok());
    let run = compare_bench_args(&args, true);
    assert!(run.no_disk);
    assert_eq!((run.size_gib, run.lanes, run.io_chunk_bytes), (2, 3, 8));
    assert_eq!(run.destination_uri, "local://c");
    args.iterations = 0;
    assert_eq!(check_compare(&args).err(), Some("iterations must be > 0".to_owned()));
    args.io_chunk_bytes = 0;
    assert_eq!(check_compare(&args).err(), Some("io_chunk_bytes must be > 0".to_owned()));
    args.lanes = 0;
    assert_eq!(check_compare(&args).err(), Some("lanes must be > 0".to_owned()));
    args.size_gib = 0;
    assert_eq!(check_compare(&args).err(), Some("size_gib must be > 0".to_owned()));

    let mut series = CompareSeriesArgs {
        sizes_gib: vec![1, 2],
        file_prefix: "series".to_owned(),
        tenant_id: "t".to_owned(),
        user_id: "u".to_owned(),
        destination_prefix: "local://s/".to_owned(),
        quic_addr: None,
        io_chunk_bytes: 8,
        lanes: 3,
        iterations: 4,
        cleanup_files: false,
    };
    assert!(check_series(&series).is_ok());
    let compare = series_compare_args(&series, 2, "/tmp/series-2g.bin");
    assert_eq!(compare.destination_uri, "local://s/series-2g.bin");
    assert_eq!(compare.file_path, "/tmp/series-2g.bin");
    assert_eq!((compare.size_gib, compare.iterations), (2, 4));
    assert!(!compare.cleanup_file);
    series.iterations = 0;
    assert_eq!(check_series(&series).err(), Some("iterations must be > 0".to_owned()));
    series.sizes_gib.push(0);
    assert_eq!(check_series(&series).err(), Some("sizes_gib values must be > 0".to_owned()));
    series.sizes_gib.clear();
    assert_eq!(
        check_series(&series).err(),
        Some("sizes_gib must contain at least one value".to_owned())
    );

    let row = |size_gib, disk, no_disk, delta| SeriesRow {
        size_gib,
        disk_p50_gbps: rate(disk),
        no_disk_p50_gbps: rate(no_disk),
        delta_p50_gbps: rate(delta),
    };
    let best = best_sizes(&vec![
        row(1, 5.0, 6.0, 1.0),
        row(2, 4.0, 9.0, 5.0),
        row(4, 5.0, 8.0, 3.0),
    ]);
    assert_eq!(best.disk_size_gib, Some(4));
    assert_eq!(best.no_disk_size_gib, Some(2));
    assert_eq!(best.delta_size_gib, Some(2));
    assert_eq!(best_sizes(&vec![]).disk_size_gib, None);
}

fn tune_args() -> TuneLanesArgs {
    TuneLanesArgs {
        size_gib: 2,
        lanes: vec![8, 0, 2, 8, 1],
        concurrency: 2,
        iterations: 3,
        io_chunk_bytes: 16,
        no_disk: false,
        file_path: "/tmp/t".to_owned(),
        file_prefix: "tune".to_owned(),
        tenant_id: "t".to_owned(),
        user_id: "u".to_owned(),
        destination_prefix: "local://tune/".to_owned(),
    }
}

fn candidate(lanes: u32, p50: f64, successful_runs: u32) -> TuneLanesCandidate {
    TuneLanesCandidate {
        lanes,
        aggregate_p50_gbps: rate(p50),
        aggregate_p95_gbps: rate(p50 + 1.0),
        successful_runs,
        failed_runs: 0,
    }
}

fn tune_report(recommended_lanes: Option<u32>) -> TuneLanesReport {
    TuneLanesReport {
        completed_at: AT,
        size_gib: 2,
        concurrency: 1,
        io_chunk_bytes: 16,
        no_disk: false,
        recommended_lanes,
        candidates: vec![candidate(1, 9.0, 0), candidate(2, 3.0, 1), candidate(4, 3.0, 2)],
    }
}

#[test]
fn lane_candidates_are_distinct_and_rising() {
    assert_eq!(lane_candidates(&tune_args()), Ok(vec![1, 2, 8]));
    let fault = |change: &dyn Fn(&mut TuneLanesArgs)| {
        let mut args = tune_args();
        change(&mut args);
        lane_candidates(&args).expect_err("fault")
    };
    assert_eq!(fault(&|args| args.size_gib = 0), "size_gib must be > 0");
    assert_eq!(fault(&|args| args.concurrency = 0), "concurrency must be > 0");
    assert_eq!(fault(&|args| args.iterations = 0), "iterations must be > 0");
    assert_eq!(fault(&|args| args.io_chunk_bytes = 0), "io_chunk_bytes must be > 0");
    assert_eq!(fault(&|args| args.lanes.clear()), "lanes must contain at least one value");
    assert_eq!(fault(&|args| args.lanes = vec![0, 0]), "lanes must contain values > 0");
}

#[test]
fn tuning_jobs_and_their_tally() {
    let request = job_request(&tune_args(), 8, 3, 1);
    assert_eq!(request.file_name, "tune-2g-l8-it3-job1.bin");
    assert_eq!(request.source_uri, "file:///tmp/t");
    assert_eq!(request.destination_uri, "local://tune/tune-2g-l8-it3-job1.bin");
    let mut generated = tune_args();
    generated.no_disk = true;
    let request = job_request(&generated, 8, 3, 1);
    assert_eq!(request.source_uri, "generated://zeros/tune-2g-l8-it3-job1.bin");
    assert_eq!(
        request.destination_uri,
        "null://benchmark/tune-lanes/tune-2g-l8-it3-job1.bin"
    );

    let mut tally = IterationTally::new();
    let outcome = tally.add_iteration(2, 2);
    assert!(outcome.counts);
    assert_eq!(outcome.failed_jobs, 0);
    let outcome = tally.add_iteration(2, 1);
    assert!(!outcome.counts);
    assert_eq!((outcome.successful_jobs, outcome.failed_jobs), (1, 1));
    assert_eq!((tally.successful_runs, tally.failed_runs), (1, 1));
}

#[test]
fn the_fastest_lanes_are_recommended() {
    let report = tune_report(None);
    assert_eq!(recommended_lanes_from_candidates(&report.candidates), Some(4));
    assert_eq!(recommended_lanes_from_report(&report), Some(4));
    assert_eq!(recommended_lanes_from_report(&tune_report(Some(2))), Some(2));
    assert_eq!(recommended_lanes_from_candidates(&vec![candidate(1, 1.0, 0)]), None);

    let entry = tuned_policy_entry(&tune_report(Some(2)), Some("/tmp/r.json")).expect("entry");
    assert_eq!(entry.recommended_lanes, 2);
    assert_eq!(entry.source, "tune-lanes report /tmp/r.json");
    assert_eq!(entry.tuned_at, AT);
    assert_eq!(entry.aggregate_p50_gbps, rate(3.0));
    assert_eq!(entry.aggregate_p95_gbps, rate(4.0));
    assert_eq!(entry.profile.size_gib, 2);
    let entry = tuned_policy_entry(&tune_report(Some(7)), None).expect("entry");
    assert_eq!(entry.source, "transfer tune-lanes");
    assert_eq!(entry.aggregate_p50_gbps, rate(0.0));
    assert_eq!(
        tuned_policy_entry(&tune_report(Some(0)), None).err(),
        Some("cannot persist lane policy: tune-lanes report has no recommended lanes".to_owned())
    );
}

#[test]
fn lanes_are_chosen_by_report_then_policy_then_configuration() {
    assert_eq!(
        begin_lane_choice(0, true, true).err(),
        Some("lanes must be > 0".to_owned())
    );
    assert!(matches!(begin_lane_choice(3, true, true), Ok(LaneStep::ReadReport)));
    assert!(matches!(begin_lane_choice(3, false, true), Ok(LaneStep::ReadPolicy)));
    assert!(matches!(
        begin_lane_choice(3, false, false),
        Ok(LaneStep::Use { lanes: 3, note: None })
    ));

    let requested = WorkloadProfile {
        size_gib: 2,
        concurrency: 1,
        io_chunk_bytes: 16,
        no_disk: false,
    };
    let other = WorkloadProfile {
        size_gib: 3,
        ..requested
    };
    let chosen = |step: LaneStep| match step {
        LaneStep::Use { lanes, note } => (lanes, note.unwrap_or_default()),
        other => panic!("{other:?}"),
    };
    assert_eq!(
        chosen(choose_by_report(3, &tune_report(None), "/r", &requested, true)),
        (4, "auto-selected lanes=4 from /r".to_owned())
    );
    assert_eq!(
        chosen(choose_by_report(3, &tune_report(None), "/r", &other, true)),
        (
            4,
            "auto-selected lanes=4 from /r (report profile size_gib=2 concurrency=1 \
             io_chunk_bytes=16 no_disk=false)"
                .to_owned()
        )
    );
    assert!(matches!(
        choose_by_report(3, &tune_report(Some(0)), "/r", &requested, true),
        LaneStep::ReadPolicy
    ));
    assert!(matches!(
        choose_by_report(3, &tune_report(Some(0)), "/r", &requested, false),
        LaneStep::Use { lanes: 3, note: None }
    ));

    let store = LanePolicyStore {
        schema_version: 1,
        updated_at: AT,
        entries: vec![LanePolicyEntry {
            profile: requested,
            recommended_lanes: 6,
            source: "s".to_owned(),
            tuned_at: AT,
            aggregate_p50_gbps: rate(0.0),
            aggregate_p95_gbps: rate(0.0),
        }],
    };
    assert_eq!(
        choose_by_policy(3, &store, "/p", &requested),
        (6, Some("auto-selected lanes=6 from lane policy /p".to_owned()))
    );
    assert_eq!(
        choose_by_policy(3, &store, "/p", &other),
        (
            6,
            Some(
                "auto-selected lanes=6 from lane policy /p fallback profile size_gib=2 \
                 concurrency=1 io_chunk_bytes=16 no_disk=false"
                    .to_owned()
            )
        )
    );
    assert_eq!(
        choose_by_policy(3, &LanePolicyStore::empty(AT), "/p", &other),
        (3, None)
    );
}

fn health() -> HealthResponse {
    HealthResponse {
        status: "ok".to_owned(),
        version: "0.1".to_owned(),
        quic_listener: "q".to_owned(),
        quic_profile: "lan".to_owned(),
        timestamp: AT,
    }
}

#[test]
fn keys_of_the_interactive_client() {
    assert_eq!(command_for_key('q'), TuiCommand::Quit);
    assert_eq!(command_for_key('r'), TuiCommand::RefreshHealth);
    assert_eq!(command_for_key('b'), TuiCommand::RunBenchmark);
    assert_eq!(command_for_key('Q'), TuiCommand::Nothing);
}

#[test]
fn the_interactive_client_shows_what_it_knows() {
    let mut state = TuiState::default();
    assert_eq!(server_line("http://h"), "Server: http://h");
    assert_eq!(refresh_line(&state), "Last refresh: never");
    let panel = health_panel(&state, "");
    assert_eq!(panel.lines, vec!["no data yet".to_owned()]);
    assert!(!panel.is_error);
    assert_eq!(benchmark_panel(&state), "no benchmark run yet");

    state.health_probed(Err("down".to_owned()), "10:00".to_owned());
    assert_eq!(refresh_line(&state), "Last refresh: 10:00");
    let panel = health_panel(&state, "");
    assert_eq!(panel.lines, vec!["error: down".to_owned()]);
    assert!(panel.is_error);

    state.health_probed(Ok(health()), "10:01".to_owned());
    let panel = health_panel(&state, "then");
    assert_eq!(
        panel.lines,
        vec![
            "status: ok".to_owned(),
            "version: 0.1".to_owned(),
            "quic_listener: q".to_owned(),
            "timestamp: then".to_owned(),
        ]
    );
    state.health_probed(Err("down".to_owned()), "10:02".to_owned());
    assert!(!health_panel(&state, "then").is_error);

    state.benchmark_started();
    assert_eq!(benchmark_panel(&state), "benchmark running...");
    state.benchmark_ended(Err("no server".to_owned()));
    assert_eq!(benchmark_panel(&state), "benchmark error: no server");
    state.benchmark_started();
    state.benchmark_ended(Ok(Some("{}".to_owned())));
    assert_eq!(benchmark_panel(&state), "{}");
}

#[test]
fn the_interactive_benchmark() {
    let mut args = TuiArgs::default();
    args.runtime_policy = Some("/p".to_owned());
    assert_eq!(
        benchmark_config_line(&args),
        "size=1GiB lanes=2 chunk=8388608 no_disk=true auto_report=none runtime_policy=/p"
    );
    let run = tui_bench_args(&args);
    assert_eq!(run.runtime_policy, Some("/p".to_owned()));
    assert_eq!(run.auto_runtime_report, None);
    args.auto_runtime_report = Some("/r".to_owned());
    let run = tui_bench_args(&args);
    assert_eq!(run.auto_runtime_report, Some("/r".to_owned()));
    assert_eq!((run.size_gib, run.lanes), (1, 2));
    assert_eq!(run.tenant_id, "tui-tenant");
    assert_eq!(run.user_id, "tui-user");
    assert_eq!(run.destination_uri, "local://benchmark/metra-tui-bench.bin");
    assert_eq!(run.file_path, "/tmp/metra-tui-bench.bin");
    assert!(run.no_disk);
}

#[test]
fn a_comparison_runs_with_the_disk_first_in_each_iteration() {
    let args = CompareArgs {
        size_gib: 2,
        file_path: "/tmp/c".to_owned(),
        tenant_id: "t".to_owned(),
        user_id: "u".to_owned(),
        destination_uri: "local://c".to_owned(),
        quic_addr: None,
        io_chunk_bytes: 8,
        lanes: 3,
        iterations: 2,
        cleanup_file: true,
    };
    let mut order = Vec::new();
    let mut done = 0;
    while let Some((iteration, run)) = compare_run(&args, done) {
        assert_eq!((run.size_gib, run.lanes, run.io_chunk_bytes), (2, 3, 8));
        order.push((iteration, run.no_disk));
        done += 1;
    }
    assert_eq!(order, vec![(1, false), (1, true), (2, false), (2, true)]);
    assert!(compare_run(&args, 4).is_none());
    assert!(compare_run(&args, u64::MAX).is_none());
}

#[test]
fn streamed_bytes_of_jobs_are_summed_where_they_fit() {
    assert_eq!(streamed_by_jobs(&vec![]), Some(0));
    assert_eq!(streamed_by_jobs(&vec![report(1.0), report(2.0)]), Some(20));
    let mut large = report(1.0);
    large.bytes_streamed_this_session = u64::MAX - 10;
    assert_eq!(streamed_by_jobs(&vec![large, report(1.0)]), Some(u64::MAX));
    let mut large = report(1.0);
    large.bytes_streamed_this_session = u64::MAX - 9;
    assert_eq!(streamed_by_jobs(&vec![large, report(1.0)]), None);
}
