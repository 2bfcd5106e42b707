//! Lane policies: how many lanes proved fastest for each kind of workload.

use crate::messages::Timestamp;
use crate::policy;
use crate::policy::{choose_entry, upsert_entry, PolicyEntry, Slot};
use crate::throughput::Throughput;
use vstd::prelude::*;
use vstd::string::*;

verus! {

pub const LANE_POLICY_SCHEMA_VERSION: u32 = 1;

/// A kind of workload: the size of each file, how many transfers run at once, and how the file is
/// read.
#[derive(Debug, Clone, Copy, PartialEq, Eq, Structural)]
pub struct WorkloadProfile {
    pub size_gib: u64,
    pub concurrency: u32,
    pub io_chunk_bytes: usize,
    pub no_disk: bool,
}

impl WorkloadProfile {
    /// The slot of the policy that this kind of workload has.
    pub open spec fn slot(self) -> Slot {
        Slot {
            no_disk: self.no_disk,
            width: self.concurrency,
            size_gib: self.size_gib,
            io_chunk_bytes: self.io_chunk_bytes,
        }
    }

    fn slot_of(&self) -> (r: Slot)
        ensures
            r == self.slot(),
    {
        Slot {
            no_disk: self.no_disk,
            width: self.concurrency,
            size_gib: self.size_gib,
            io_chunk_bytes: self.io_chunk_bytes,
        }
    }
}

/// How many lanes to use for a kind of workload, and what that was found from.
#[derive(Debug)]
pub struct LanePolicyEntry {
    pub profile: WorkloadProfile,
    pub recommended_lanes: u32,
    pub source: String,
    pub tuned_at: Timestamp,
    pub aggregate_p50_gbps: Throughput,
    pub aggregate_p95_gbps: Throughput,
}

impl Clone for LanePolicyEntry {
    fn clone(&self) -> (r: Self)
        ensures
            r == *self,
    {
        LanePolicyEntry {
            profile: self.profile,
            recommended_lanes: self.recommended_lanes,
            source: self.source.clone(),
            tuned_at: self.tuned_at,
            aggregate_p50_gbps: self.aggregate_p50_gbps,
            aggregate_p95_gbps: self.aggregate_p95_gbps,
        }
    }
}

impl PolicyEntry for LanePolicyEntry {
    open spec fn slot(&self) -> Slot {
        self.profile.slot()
    }

    open spec fn stamp(&self) -> Timestamp {
        self.tuned_at
    }

    open spec fn is_usable(&self) -> bool {
        self.recommended_lanes > 0
    }

    fn slot_of(&self) -> (r: Slot) {
        self.profile.slot_of()
    }

    fn stamp_of(&self) -> (r: Timestamp) {
        self.tuned_at
    }

    fn usable(&self) -> (r: bool) {
        self.recommended_lanes > 0
    }
}

/// A policy as it is stored.
#[derive(Debug)]
pub struct LanePolicyStore {
    pub schema_version: u32,
    pub updated_at: Timestamp,
    pub entries: Vec<LanePolicyEntry>,
}

/// The entry that a request is answered with.
#[derive(Debug)]
pub struct LanePolicySelection {
    pub entry: LanePolicyEntry,
    pub exact_profile_match: bool,
}

/// The schema version of a stored policy that names none.
pub fn default_schema_version() -> (r: u32)
    ensures
        r == LANE_POLICY_SCHEMA_VERSION,
{
    LANE_POLICY_SCHEMA_VERSION
}

impl LanePolicyStore {
    /// A policy without entries.
    pub fn empty(now: Timestamp) -> (r: Self)
        ensures
            r.schema_version == LANE_POLICY_SCHEMA_VERSION,
            r.updated_at == now,
            r.entries@ == Seq::<LanePolicyEntry>::empty(),
    {
        LanePolicyStore {
            schema_version: LANE_POLICY_SCHEMA_VERSION,
            updated_at: now,
            entries: Vec::new(),
        }
    }
}

/// Why an entry is not taken into a policy.
pub open spec fn lane_entry_fault(entry: LanePolicyEntry) -> Option<Seq<char>> {
    if entry.recommended_lanes == 0 {
        Some("policy entry recommended_lanes must be > 0"@)
    } else {
        None
    }
}

/// Whether an entry may be taken into a policy.
pub fn check_lane_policy_entry(entry: &LanePolicyEntry) -> (r: Result<(), String>)
    ensures
        match r {
            Ok(()) => lane_entry_fault(*entry) is None,
            Err(message) => lane_entry_fault(*entry) == Some(message@),
        },
{
    if entry.recommended_lanes == 0 {
        return Err("policy entry recommended_lanes must be > 0".to_owned());
    }
    Ok(())
}

/// Takes an entry into a policy: in place of the one for its kind of workload, if there is one. The
/// entries are kept in order.
pub fn upsert_lane_policy_entry(store: LanePolicyStore, entry: LanePolicyEntry, now: Timestamp) -> (r: Result<
    LanePolicyStore,
    String,
>)
    ensures
        match r {
            Ok(updated) => {
                &&& lane_entry_fault(entry) is None
                &&& updated.schema_version == LANE_POLICY_SCHEMA_VERSION
                &&& updated.updated_at == now
                &&& policy::is_stable_sort(
                    policy::with_entry(store.entries@, entry),
                    updated.entries@,
                )
            },
            Err(message) => lane_entry_fault(entry) == Some(message@),
        },
{
    match check_lane_policy_entry(&entry) {
        Ok(()) => {},
        Err(message) => {
            return Err(message);
        },
    }
    Ok(
        LanePolicyStore {
            schema_version: LANE_POLICY_SCHEMA_VERSION,
            updated_at: now,
            entries: upsert_entry(store.entries, entry),
        },
    )
}

/// The entry that suits a requested workload best, among those that recommend something.
pub fn select_lane_policy(store: &LanePolicyStore, requested: &WorkloadProfile) -> (r: Option<
    LanePolicySelection,
>)
    ensures
        match r {
            Some(selection) => {
                &&& exists|i: int| #[trigger]
                    policy::is_choice(store.entries@, requested.slot(), i) && store.entries@[i]
                        == selection.entry
                &&& selection.exact_profile_match == (selection.entry.profile == *requested)
            },
            None => forall|i: int|
                0 <= i < store.entries@.len() ==> !(#[trigger] store.entries@[i]).is_usable(),
        },
{
    match choose_entry(&store.entries, requested.slot_of()) {
        None => None,
        Some(i) => {
            let entry = store.entries[i].clone();
            let exact_profile_match = entry.profile == *requested;
            Some(LanePolicySelection { entry, exact_profile_match })
        },
    }
}

/// An entry that is taken into a policy is what its kind of workload is answered with, as an exact
/// match.
pub proof fn a_tuned_workload_is_answered_exactly(
    store: LanePolicyStore,
    entry: LanePolicyEntry,
    updated: LanePolicyStore,
    i: int,
)
    requires
        policy::slots_are_distinct(store.entries@),
        lane_entry_fault(entry) is None,
        policy::is_stable_sort(policy::with_entry(store.entries@, entry), updated.entries@),
        policy::is_choice(updated.entries@, entry.profile.slot(), i),
    ensures
        updated.entries@[i] == entry,
{
    policy::an_upserted_entry_is_chosen(store.entries@, entry, updated.entries@, i);
}

/// The workload that answers a request compared with any other that recommends lanes. One with the
/// requested disk mode comes before one without. Among those of one disk mode the answer has the least
/// difference in concurrency from the request; only among those of equal difference does the size decide,
/// then the chunk size, and then which was tuned last.
pub proof fn the_nearest_workload_answers(
    store: LanePolicyStore,
    requested: WorkloadProfile,
    i: int,
    j: int,
)
    requires
        policy::is_choice(store.entries@, requested.slot(), i),
        0 <= j < store.entries@.len(),
        store.entries@[j].recommended_lanes > 0,
    ensures
        store.entries@[i].recommended_lanes > 0,
        ({
            let chosen = store.entries@[i].profile;
            let other = store.entries@[j].profile;
            let chosen_at = store.entries@[i].tuned_at;
            let other_at = store.entries@[j].tuned_at;
            let chosen_width = vstd::math::abs(chosen.concurrency - requested.concurrency);
            let other_width = vstd::math::abs(other.concurrency - requested.concurrency);
            let chosen_size = vstd::math::abs(chosen.size_gib - requested.size_gib);
            let other_size = vstd::math::abs(other.size_gib - requested.size_gib);
            let chosen_chunk = vstd::math::abs(chosen.io_chunk_bytes - requested.io_chunk_bytes);
            let other_chunk = vstd::math::abs(other.io_chunk_bytes - requested.io_chunk_bytes);
            &&& other.no_disk == requested.no_disk ==> chosen.no_disk == requested.no_disk
            &&& chosen.no_disk == other.no_disk ==> {
                &&& chosen_width <= other_width
                &&& chosen_width == other_width ==> chosen_size <= other_size
                &&& chosen_width == other_width && chosen_size == other_size ==> chosen_chunk
                    <= other_chunk
                &&& chosen_width == other_width && chosen_size == other_size && chosen_chunk
                    == other_chunk ==> {
                    &&& other_at.secs <= chosen_at.secs
                    &&& other_at.secs == chosen_at.secs ==> other_at.nanos <= chosen_at.nanos
                    &&& other_at == chosen_at ==> i <= j
                }
            }
        }),
{
    policy::the_nearest_entry_is_chosen(store.entries@, requested.slot(), i, j);
}

/// An entry is taken into a policy exactly where it recommends at least one lane.
pub proof fn taken_entries_recommend_lanes(entry: LanePolicyEntry)
    ensures
        lane_entry_fault(entry) is None <==> entry.recommended_lanes >= 1,
{
}

} // verus!
