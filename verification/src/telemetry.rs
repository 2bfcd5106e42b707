//! How the memory of a host and of this process changed between two samples.

use vstd::prelude::*;

verus! {

/// The value of an `i64` that is nearest to a difference.
pub open spec fn nearest_i64(delta: int) -> i64 {
    if delta < i64::MIN {
        i64::MIN
    } else if delta > i64::MAX {
        i64::MAX
    } else {
        delta as i64
    }
}

/// `end - start`, held within the limits of the result.
pub fn signed_delta_u64(end: u64, start: u64) -> (r: i64)
    ensures
        r == nearest_i64(end - start),
{
    let delta: i128 = end as i128 - start as i128;
    if delta < i64::MIN as i128 {
        i64::MIN
    } else if delta > i64::MAX as i128 {
        i64::MAX
    } else {
        delta as i64
    }
}

/// A sample of memory use. The process is missing where it could not be found.
#[derive(Debug, Clone, Copy, PartialEq, Eq, Structural)]
pub struct MemorySample {
    pub used_memory_bytes: u64,
    pub process_memory_bytes: Option<u64>,
    pub process_virtual_memory_bytes: Option<u64>,
}

/// The change between two samples.
#[derive(Debug, Clone, Copy, PartialEq, Eq, Structural)]
pub struct MemoryDelta {
    pub used_memory_bytes_delta: i64,
    pub process_memory_bytes_delta: Option<i64>,
    pub process_virtual_memory_bytes_delta: Option<i64>,
}

/// The change of a value that both samples have.
pub open spec fn optional_delta(start: Option<u64>, end: Option<u64>) -> Option<i64> {
    match (start, end) {
        (Some(start), Some(end)) => Some(nearest_i64(end - start)),
        _ => None,
    }
}

fn delta_of(start: Option<u64>, end: Option<u64>) -> (r: Option<i64>)
    ensures
        r == optional_delta(start, end),
{
    match (start, end) {
        (Some(start), Some(end)) => Some(signed_delta_u64(end, start)),
        _ => None,
    }
}

/// The change between two samples.
pub fn memory_delta(start: &MemorySample, end: &MemorySample) -> (r: MemoryDelta)
    ensures
        r.used_memory_bytes_delta == nearest_i64(end.used_memory_bytes - start.used_memory_bytes),
        r.process_memory_bytes_delta == optional_delta(
            start.process_memory_bytes,
            end.process_memory_bytes,
        ),
        r.process_virtual_memory_bytes_delta == optional_delta(
            start.process_virtual_memory_bytes,
            end.process_virtual_memory_bytes,
        ),
{
    MemoryDelta {
        used_memory_bytes_delta: signed_delta_u64(end.used_memory_bytes, start.used_memory_bytes),
        process_memory_bytes_delta: delta_of(start.process_memory_bytes, end.process_memory_bytes),
        process_virtual_memory_bytes_delta: delta_of(
            start.process_virtual_memory_bytes,
            end.process_virtual_memory_bytes,
        ),
    }
}

/// A difference is told exactly where the result can hold it, and else by the nearest value that it
/// can hold.
pub proof fn differences_are_told_as_nearly_as_can_be(delta: int, other: i64)
    ensures
        i64::MIN <= delta <= i64::MAX ==> nearest_i64(delta) == delta,
        vstd::math::abs(nearest_i64(delta) - delta) <= vstd::math::abs(other - delta),
{
}

/// A change is told exactly where both samples have the value, and leads from the first to the second
/// where the result can hold it.
pub proof fn changes_lead_from_sample_to_sample(start: Option<u64>, end: Option<u64>)
    ensures
        optional_delta(start, end) is Some <==> start is Some && end is Some,
        optional_delta(start, end) matches Some(delta) ==> (i64::MIN <= end->0 - start->0
            <= i64::MAX ==> start->0 + delta == end->0),
{
}

} // verus!
