//! Runtime policies: which runtime profile proved fastest for each kind of workload.

use crate::messages::Timestamp;
use crate::policy;
use crate::policy::{choose_entry, upsert_entry, PolicyEntry, Slot};
use crate::text;
use crate::text::is_blank;
use crate::throughput::Throughput;
use vstd::prelude::*;
use vstd::string::*;

verus! {

pub const RUNTIME_POLICY_SCHEMA_VERSION: u32 = 1;

/// A kind of workload: the size of the file, how many lanes carry it, and how it is read.
#[derive(Debug, Clone, Copy, PartialEq, Eq, Structural)]
pub struct RuntimeWorkloadProfile {
    pub size_gib: u64,
    pub lanes: u32,
    pub io_chunk_bytes: usize,
    pub no_disk: bool,
}

impl RuntimeWorkloadProfile {
    /// The slot of the policy that this kind of workload has.
    pub open spec fn slot(self) -> Slot {
        Slot {
            no_disk: self.no_disk,
            width: self.lanes,
            size_gib: self.size_gib,
            io_chunk_bytes: self.io_chunk_bytes,
        }
    }

    fn slot_of(&self) -> (r: Slot)
        ensures
            r == self.slot(),
    {
        Slot {
            no_disk: self.no_disk,
            width: self.lanes,
            size_gib: self.size_gib,
            io_chunk_bytes: self.io_chunk_bytes,
        }
    }
}

/// Which runtime profile to use for a kind of workload, and what that was found from.
#[derive(Debug)]
pub struct RuntimePolicyEntry {
    pub profile: RuntimeWorkloadProfile,
    pub recommended_profile: String,
    pub effective_io_chunk_bytes: usize,
    pub file_read_pipeline_depth: usize,
    pub source: String,
    pub tuned_at: Timestamp,
    pub throughput_p50_gbps: Throughput,
    pub throughput_p95_gbps: Throughput,
}

impl Clone for RuntimePolicyEntry {
    fn clone(&self) -> (r: Self)
        ensures
            r == *self,
    {
        RuntimePolicyEntry {
            profile: self.profile,
            recommended_profile: self.recommended_profile.clone(),
            effective_io_chunk_bytes: self.effective_io_chunk_bytes,
            file_read_pipeline_depth: self.file_read_pipeline_depth,
            source: self.source.clone(),
            tuned_at: self.tuned_at,
            throughput_p50_gbps: self.throughput_p50_gbps,
            throughput_p95_gbps: self.throughput_p95_gbps,
        }
    }
}

impl PolicyEntry for RuntimePolicyEntry {
    open spec fn slot(&self) -> Slot {
        self.profile.slot()
    }

    open spec fn stamp(&self) -> Timestamp {
        self.tuned_at
    }

    open spec fn is_usable(&self) -> bool {
        !text::is_blank_text(self.recommended_profile@) && self.effective_io_chunk_bytes > 0
            && self.file_read_pipeline_depth > 0
    }

    fn slot_of(&self) -> (r: Slot) {
        self.profile.slot_of()
    }

    fn stamp_of(&self) -> (r: Timestamp) {
        self.tuned_at
    }

    fn usable(&self) -> (r: bool) {
        !is_blank(self.recommended_profile.as_str()) && self.effective_io_chunk_bytes > 0
            && self.file_read_pipeline_depth > 0
    }
}

/// A policy as it is stored.
#[derive(Debug)]
pub struct RuntimePolicyStore {
    pub schema_version: u32,
    pub updated_at: Timestamp,
    pub entries: Vec<RuntimePolicyEntry>,
}

/// The entry that a request is answered with.
#[derive(Debug)]
pub struct RuntimePolicySelection {
    pub entry: RuntimePolicyEntry,
    pub exact_profile_match: bool,
}

/// The schema version of a stored policy that names none.
pub fn default_schema_version() -> (r: u32)
    ensures
        r == RUNTIME_POLICY_SCHEMA_VERSION,
{
    RUNTIME_POLICY_SCHEMA_VERSION
}

impl RuntimePolicyStore {
    /// A policy without entries.
    pub fn empty(now: Timestamp) -> (r: Self)
        ensures
            r.schema_version == RUNTIME_POLICY_SCHEMA_VERSION,
            r.updated_at == now,
            r.entries@ == Seq::<RuntimePolicyEntry>::empty(),
    {
        RuntimePolicyStore {
            schema_version: RUNTIME_POLICY_SCHEMA_VERSION,
            updated_at: now,
            entries: Vec::new(),
        }
    }
}

/// Why an entry is not taken into a policy.
pub open spec fn runtime_entry_fault(entry: RuntimePolicyEntry) -> Option<Seq<char>> {
    if text::is_blank_text(entry.recommended_profile@) {
        Some("runtime policy entry recommended_profile must not be empty"@)
    } else if entry.effective_io_chunk_bytes == 0 {
        Some("runtime policy entry effective_io_chunk_bytes must be > 0"@)
    } else if entry.file_read_pipeline_depth == 0 {
        Some("runtime policy entry file_read_pipeline_depth must be > 0"@)
    } else {
        None
    }
}

/// Whether an entry may be taken into a policy.
pub fn check_runtime_policy_entry(entry: &RuntimePolicyEntry) -> (r: Result<(), String>)
    ensures
        match r {
            Ok(()) => runtime_entry_fault(*entry) is None,
            Err(message) => runtime_entry_fault(*entry) == Some(message@),
        },
{
    if is_blank(entry.recommended_profile.as_str()) {
        return Err("runtime policy entry recommended_profile must not be empty".to_owned());
    }
    if entry.effective_io_chunk_bytes == 0 {
        return Err("runtime policy entry effective_io_chunk_bytes must be > 0".to_owned());
    }
    if entry.file_read_pipeline_depth == 0 {
        return Err("runtime policy entry file_read_pipeline_depth must be > 0".to_owned());
    }
    Ok(())
}

/// Takes an entry into a policy: in place of the one for its kind of workload, if there is one. The
/// entries are kept in order.
pub fn upsert_runtime_policy_entry(store: RuntimePolicyStore, entry: RuntimePolicyEntry, now: Timestamp) -> (r: Result<
    RuntimePolicyStore,
    String,
>)
    ensures
        match r {
            Ok(updated) => {
                &&& runtime_entry_fault(entry) is None
                &&& updated.schema_version == RUNTIME_POLICY_SCHEMA_VERSION
                &&& updated.updated_at == now
                &&& policy::is_stable_sort(
                    policy::with_entry(store.entries@, entry),
                    updated.entries@,
                )
            },
            Err(message) => runtime_entry_fault(entry) == Some(message@),
        },
{
    match check_runtime_policy_entry(&entry) {
        Ok(()) => {},
        Err(message) => {
            return Err(message);
        },
    }
    Ok(
        RuntimePolicyStore {
            schema_version: RUNTIME_POLICY_SCHEMA_VERSION,
            updated_at: now,
            entries: upsert_entry(store.entries, entry),
        },
    )
}

/// The entry that suits a requested workload best, among those that recommend something.
pub fn select_runtime_policy(store: &RuntimePolicyStore, requested: &RuntimeWorkloadProfile) -> (r: Option<
    RuntimePolicySelection,
>)
    ensures
        match r {
            Some(selection) => {
                &&& exists|i: int| #[trigger]
                    policy::is_choice(store.entries@, requested.slot(), i) && store.entries@[i]
                        == selection.entry
                &&& selection.exact_profile_match == (selection.entry.profile == *requested)
            },
            None => forall|i: int|
                0 <= i < store.entries@.len() ==> !(#[trigger] store.entries@[i]).is_usable(),
        },
{
    match choose_entry(&store.entries, requested.slot_of()) {
        None => None,
        Some(i) => {
            let entry = store.entries[i].clone();
            let exact_profile_match = entry.profile == *requested;
            Some(RuntimePolicySelection { entry, exact_profile_match })
        },
    }
}

/// An entry that is taken into a policy is what its kind of workload is answered with, as an exact
/// match.
pub proof fn a_tuned_workload_is_answered_exactly(
    store: RuntimePolicyStore,
    entry: RuntimePolicyEntry,
    updated: RuntimePolicyStore,
    i: int,
)
    requires
        policy::slots_are_distinct(store.entries@),
        runtime_entry_fault(entry) is None,
        policy::is_stable_sort(policy::with_entry(store.entries@, entry), updated.entries@),
        policy::is_choice(updated.entries@, entry.profile.slot(), i),
    ensures
        updated.entries@[i] == entry,
{
    policy::an_upserted_entry_is_chosen(store.entries@, entry, updated.entries@, i);
}

/// The workload that answers a request compared with any other that recommends a profile. One with the
/// requested disk mode comes before one without. Among those of one disk mode the answer has the least
/// difference in lanes from the request; only among those of equal difference does the size decide,
/// then the chunk size, and then which was tuned last.
pub proof fn the_nearest_workload_answers(
    store: RuntimePolicyStore,
    requested: RuntimeWorkloadProfile,
    i: int,
    j: int,
)
    requires
        policy::is_choice(store.entries@, requested.slot(), i),
        0 <= j < store.entries@.len(),
        exists|c: int|
            0 <= c < store.entries@[j].recommended_profile@.len() && !text::is_white_space(
                #[trigger] store.entries@[j].recommended_profile@[c],
            ),
        store.entries@[j].effective_io_chunk_bytes > 0,
        store.entries@[j].file_read_pipeline_depth > 0,
    ensures
        !text::is_blank_text(store.entries@[i].recommended_profile@),
        store.entries@[i].effective_io_chunk_bytes > 0,
        store.entries@[i].file_read_pipeline_depth > 0,
        ({
            let chosen = store.entries@[i].profile;
            let other = store.entries@[j].profile;
            let chosen_at = store.entries@[i].tuned_at;
            let other_at = store.entries@[j].tuned_at;
            let chosen_width = vstd::math::abs(chosen.lanes - requested.lanes);
            let other_width = vstd::math::abs(other.lanes - requested.lanes);
            let chosen_size = vstd::math::abs(chosen.size_gib - requested.size_gib);
            let other_size = vstd::math::abs(other.size_gib - requested.size_gib);
            let chosen_chunk = vstd::math::abs(chosen.io_chunk_bytes - requested.io_chunk_bytes);
            let other_chunk = vstd::math::abs(other.io_chunk_bytes - requested.io_chunk_bytes);
            &&& other.no_disk == requested.no_disk ==> chosen.no_disk == requested.no_disk
            &&& chosen.no_disk == other.no_disk ==> {
                &&& chosen_width <= other_width
                &&& chosen_width == other_width ==> chosen_size <= other_size
                &&& chosen_width == other_width && chosen_size == other_size ==> chosen_chunk
                    <= other_chunk
                &&& chosen_width == other_width && chosen_size == other_size && chosen_chunk
                    == other_chunk ==> {
                    &&& other_at.secs <= chosen_at.secs
                    &&& other_at.secs == chosen_at.secs ==> other_at.nanos <= chosen_at.nanos
                    &&& other_at == chosen_at ==> i <= j
                }
            }
        }),
{
    policy::the_nearest_entry_is_chosen(store.entries@, requested.slot(), i, j);
}

/// An entry is taken into a policy exactly where it names a profile that is more than white space, and
/// neither its chunk size nor its pipeline depth is zero.
pub proof fn taken_entries_recommend_a_profile(entry: RuntimePolicyEntry)
    ensures
        runtime_entry_fault(entry) is None <==> {
            &&& !text::is_blank_text(entry.recommended_profile@)
            &&& entry.effective_io_chunk_bytes >= 1
            &&& entry.file_read_pipeline_depth >= 1
        },
{
}

} // verus!
