use metra::lane_policy::{
    select_lane_policy, upsert_lane_policy_entry, LanePolicyEntry, LanePolicyStore,
    WorkloadProfile,
};
use metra::messages::Timestamp;
use metra::runtime_policy::{
    select_runtime_policy, upsert_runtime_policy_entry, RuntimePolicyEntry, RuntimePolicyStore,
    RuntimeWorkloadProfile,
};
use metra::throughput::{highest, sorted_values, Throughput};

fn stamp(at: chrono::DateTime<chrono::Utc>) -> Timestamp {
    Timestamp {
        secs: at.timestamp(),
        nanos: at.timestamp_subsec_nanos(),
    }
}

fn rate(value: f64) -> Throughput {
    Throughput {
        bits: value.to_bits(),
    }
}

fn lane_entry(
    size_gib: u64,
    concurrency: u32,
    io_chunk_bytes: usize,
    no_disk: bool,
    lanes: u32,
    tuned_at: Timestamp,
) -> LanePolicyEntry {
    LanePolicyEntry {
        profile: WorkloadProfile {
            size_gib,
            concurrency,
            io_chunk_bytes,
            no_disk,
        },
        recommended_lanes: lanes,
        source: "test".to_owned(),
        tuned_at,
        aggregate_p50_gbps: rate(0.0),
        aggregate_p95_gbps: rate(0.0),
    }
}

fn runtime_entry(
    size_gib: u64,
    lanes: u32,
    io_chunk_bytes: usize,
    no_disk: bool,
    recommended_profile: &str,
    tuned_at: Timestamp,
) -> RuntimePolicyEntry {
    RuntimePolicyEntry {
        profile: RuntimeWorkloadProfile {
            size_gib,
            lanes,
            io_chunk_bytes,
            no_disk,
        },
        recommended_profile: recommended_profile.to_owned(),
        effective_io_chunk_bytes: 16 * 1024 * 1024,
        file_read_pipeline_depth: 8,
        source: "test".to_owned(),
        tuned_at,
        throughput_p50_gbps: rate(1.0),
        throughput_p95_gbps: rate(1.1),
    }
}

#[test]
fn lane_policy_selects_exact_profile_match_first() {
    let now = stamp(chrono::Utc::now());
    let store = LanePolicyStore {
        schema_version: 1,
        updated_at: now,
        entries: vec![
            lane_entry(2, 2, 16 * 1024 * 1024, true, 2, now),
            lane_entry(4, 2, 16 * 1024 * 1024, true, 4, now),
        ],
    };
    let requested = WorkloadProfile {
        size_gib: 4,
        concurrency: 2,
        io_chunk_bytes: 16 * 1024 * 1024,
        no_disk: true,
    };

    let selected = select_lane_policy(&store, &requested).expect("expected policy selection");
    assert!(selected.exact_profile_match);
    assert_eq!(selected.entry.recommended_lanes, 4);
}

#[test]
fn lane_policy_falls_back_to_nearest_profile() {
    let now = stamp(chrono::Utc::now());
    let store = LanePolicyStore {
        schema_version: 1,
        updated_at: now,
        entries: vec![
            lane_entry(1, 2, 16 * 1024 * 1024, true, 2, now),
            lane_entry(8, 4, 16 * 1024 * 1024, true, 8, now),
        ],
    };
    let requested = WorkloadProfile {
        size_gib: 6,
        concurrency: 4,
        io_chunk_bytes: 16 * 1024 * 1024,
        no_disk: true,
    };

    let selected = select_lane_policy(&store, &requested).expect("expected policy selection");
    assert!(!selected.exact_profile_match);
    assert_eq!(selected.entry.profile.size_gib, 8);
    assert_eq!(selected.entry.recommended_lanes, 8);
}

#[test]
fn prefers_same_disk_mode_before_other_fallbacks() {
    let now = stamp(chrono::Utc::now());
    let store = LanePolicyStore {
        schema_version: 1,
        updated_at: now,
        entries: vec![
            lane_entry(4, 2, 16 * 1024 * 1024, false, 2, now),
            lane_entry(4, 2, 16 * 1024 * 1024, true, 4, now),
        ],
    };
    let requested = WorkloadProfile {
        size_gib: 4,
        concurrency: 2,
        io_chunk_bytes: 16 * 1024 * 1024,
        no_disk: false,
    };

    let selected = select_lane_policy(&store, &requested).expect("expected policy selection");
    assert_eq!(selected.entry.recommended_lanes, 2);
}

#[test]
fn lane_policy_upsert_replaces_matching_profile_entry() {
    let now = chrono::Utc::now();
    let first = lane_entry(
        4,
        2,
        16 * 1024 * 1024,
        true,
        2,
        stamp(now - chrono::Duration::minutes(1)),
    );
    let second = lane_entry(4, 2, 16 * 1024 * 1024, true, 4, stamp(now));

    let store = LanePolicyStore::empty(stamp(now));
    let store = upsert_lane_policy_entry(store, first, stamp(now))
        .expect("first upsert should succeed");
    let store = upsert_lane_policy_entry(store, second, stamp(now))
        .expect("second upsert should succeed");

    assert_eq!(store.entries.len(), 1);
    assert_eq!(store.entries[0].recommended_lanes, 4);
}

#[test]
fn runtime_policy_selects_exact_profile_match_first() {
    let now = stamp(chrono::Utc::now());
    let store = RuntimePolicyStore {
        schema_version: 1,
        updated_at: now,
        entries: vec![
            runtime_entry(2, 2, 16 * 1024 * 1024, true, "balanced", now),
            runtime_entry(4, 2, 16 * 1024 * 1024, true, "throughput", now),
        ],
    };
    let requested = RuntimeWorkloadProfile {
        size_gib: 4,
        lanes: 2,
        io_chunk_bytes: 16 * 1024 * 1024,
        no_disk: true,
    };

    let selected = select_runtime_policy(&store, &requested).expect("expected runtime selection");
    assert!(selected.exact_profile_match);
    assert_eq!(selected.entry.recommended_profile, "throughput");
}

#[test]
fn runtime_policy_falls_back_to_nearest_profile() {
    let now = stamp(chrono::Utc::now());
    let store = RuntimePolicyStore {
        schema_version: 1,
        updated_at: now,
        entries: vec![
            runtime_entry(1, 2, 16 * 1024 * 1024, true, "balanced", now),
            runtime_entry(8, 4, 16 * 1024 * 1024, true, "low-cpu", now),
        ],
    };
    let requested = RuntimeWorkloadProfile {
        size_gib: 6,
        lanes: 4,
        io_chunk_bytes: 16 * 1024 * 1024,
        no_disk: true,
    };

    let selected = select_runtime_policy(&store, &requested).expect("expected runtime selection");
    assert!(!selected.exact_profile_match);
    assert_eq!(selected.entry.profile.size_gib, 8);
    assert_eq!(selected.entry.recommended_profile, "low-cpu");
}

#[test]
fn runtime_policy_upsert_replaces_matching_profile_entry() {
    let now = chrono::Utc::now();
    let first = runtime_entry(
        4,
        2,
        16 * 1024 * 1024,
        true,
        "balanced",
        stamp(now - chrono::Duration::minutes(1)),
    );
    let second = runtime_entry(4, 2, 16 * 1024 * 1024, true, "throughput", stamp(now));

    let store = RuntimePolicyStore::empty(stamp(now));
    let store = upsert_runtime_policy_entry(store, first, stamp(now))
        .expect("first upsert should succeed");
    let store = upsert_runtime_policy_entry(store, second, stamp(now))
        .expect("second upsert should succeed");

    assert_eq!(store.entries.len(), 1);
    assert_eq!(store.entries[0].recommended_profile, "throughput");
}

#[test]
fn entries_are_kept_in_order_and_an_upserted_one_is_chosen() {
    let at = |secs| Timestamp { secs, nanos: 0 };
    let mut store = LanePolicyStore::empty(at(0));
    for (size, concurrency, chunk, no_disk, lanes) in [
        (8, 2, 4, true, 1),
        (4, 2, 4, true, 2),
        (4, 1, 8, true, 3),
        (4, 1, 4, true, 4),
        (16, 9, 4, false, 5),
    ] {
        store = upsert_lane_policy_entry(
            store,
            lane_entry(size, concurrency, chunk, no_disk, lanes, at(lanes as i64)),
            at(50),
        )
        .expect("upsert");
    }
    let order: Vec<u32> = store.entries.iter().map(|entry| entry.recommended_lanes).collect();
    assert_eq!(order, vec![5, 4, 3, 2, 1]);
    assert_eq!(store.updated_at, at(50));
    assert_eq!(store.schema_version, 1);
    for entry in &store.entries {
        let selected = select_lane_policy(&store, &entry.profile).expect("selection");
        assert!(selected.exact_profile_match);
        assert_eq!(selected.entry.recommended_lanes, entry.recommended_lanes);
    }
}

#[test]
fn of_equally_near_entries_the_newer_is_chosen_and_unusable_ones_are_passed_over() {
    let at = |secs| Timestamp { secs, nanos: 0 };
    let store = LanePolicyStore {
        schema_version: 1,
        updated_at: at(0),
        entries: vec![
            lane_entry(4, 1, 4, true, 0, at(9)),
            lane_entry(3, 1, 4, true, 3, at(1)),
            lane_entry(5, 1, 4, true, 5, at(2)),
            lane_entry(5, 1, 4, true, 6, at(2)),
        ],
    };
    let requested = WorkloadProfile {
        size_gib: 4,
        concurrency: 1,
        io_chunk_bytes: 4,
        no_disk: true,
    };
    let selected = select_lane_policy(&store, &requested).expect("selection");
    assert_eq!(selected.entry.recommended_lanes, 5);
    assert!(select_lane_policy(&LanePolicyStore::empty(at(0)), &requested).is_none());
}

#[test]
fn useless_entries_are_refused() {
    let at = Timestamp { secs: 0, nanos: 0 };
    assert_eq!(
        upsert_lane_policy_entry(
            LanePolicyStore::empty(at),
            lane_entry(1, 1, 1, true, 0, at),
            at
        )
        .err(),
        Some("policy entry recommended_lanes must be > 0".to_owned())
    );
    let refused = |change: &dyn Fn(&mut RuntimePolicyEntry)| {
        let mut entry = runtime_entry(1, 1, 1, true, "balanced", at);
        change(&mut entry);
        upsert_runtime_policy_entry(RuntimePolicyStore::empty(at), entry, at).err()
    };
    assert_eq!(
        refused(&|entry| entry.recommended_profile = " ".to_owned()),
        Some("runtime policy entry recommended_profile must not be empty".to_owned())
    );
    assert_eq!(
        refused(&|entry| entry.effective_io_chunk_bytes = 0),
        Some("runtime policy entry effective_io_chunk_bytes must be > 0".to_owned())
    );
    assert_eq!(
        refused(&|entry| entry.file_read_pipeline_depth = 0),
        Some("runtime policy entry file_read_pipeline_depth must be > 0".to_owned())
    );
}

#[test]
fn rates_are_ordered_as_floating_point_numbers() {
    let values = [
        f64::NEG_INFINITY,
        -2.5,
        -1.0,
        -0.0,
        0.0,
        f64::MIN_POSITIVE,
        1.0,
        1.5,
        f64::INFINITY,
        f64::NAN,
        -f64::NAN,
    ];
    for left in values {
        for right in values {
            assert_eq!(
                rate(left).is_below(rate(right)),
                left.total_cmp(&right).is_lt(),
                "{left} {right}"
            );
        }
    }
    let mut expected = values.to_vec();
    expected.sort_by(|left, right| left.total_cmp(right));
    let sorted = sorted_values(&values.iter().map(|value| rate(*value)).collect());
    let sorted: Vec<u64> = sorted.iter().map(|value| value.bits).collect();
    let expected: Vec<u64> = expected.iter().map(|value| value.to_bits()).collect();
    assert_eq!(sorted, expected);
}

#[test]
fn the_last_of_the_highest_rates_is_found() {
    let some = |value| Some(rate(value));
    assert_eq!(highest(&vec![]), None);
    assert_eq!(highest(&vec![None, None]), None);
    assert_eq!(highest(&vec![some(1.0), some(3.0), None, some(3.0), some(2.0)]), Some(3));
    assert_eq!(highest(&vec![None, some(-1.0)]), Some(1));
}
