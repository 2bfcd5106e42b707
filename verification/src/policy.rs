//! What tuning policies have in common: one entry for each kind of workload, kept in order, and the
//! entry that is nearest to a requested workload.

use crate::messages::Timestamp;
use vstd::prelude::*;

verus! {

/// The kind of workload that an entry was tuned for. `width` is how many transfers or lanes run side
/// by side.
#[derive(Debug, Clone, Copy, PartialEq, Eq, Structural)]
pub struct Slot {
    pub no_disk: bool,
    pub width: u32,
    pub size_gib: u64,
    pub io_chunk_bytes: usize,
}

/// An entry of a tuning policy.
pub trait PolicyEntry: Sized {
    spec fn slot(&self) -> Slot;

    spec fn stamp(&self) -> Timestamp;

    /// Whether the entry recommends anything.
    spec fn is_usable(&self) -> bool;

    fn slot_of(&self) -> (r: Slot)
        ensures
            r == self.slot(),
    ;

    fn stamp_of(&self) -> (r: Timestamp)
        ensures
            r == self.stamp(),
    ;

    fn usable(&self) -> (r: bool)
        ensures
            r == self.is_usable(),
    ;
}

/// What entries are ordered by.
pub open spec fn order_key<E: PolicyEntry>(entry: E) -> (Slot, Timestamp) {
    (entry.slot(), entry.stamp())
}

/// The test whether an entry has this key.
pub open spec fn has_key<E: PolicyEntry>(key: (Slot, Timestamp)) -> spec_fn(E) -> bool {
    |entry: E| order_key(entry) == key
}

/// Whether one slot comes before another: by disk use, width, size and chunk size, in this order.
pub open spec fn slot_before(a: Slot, b: Slot) -> bool {
    if a.no_disk != b.no_disk {
        !a.no_disk
    } else if a.width != b.width {
        a.width < b.width
    } else if a.size_gib != b.size_gib {
        a.size_gib < b.size_gib
    } else {
        a.io_chunk_bytes < b.io_chunk_bytes
    }
}

/// Whether one entry is kept before another: by slot, and in one slot the newer first.
pub open spec fn entry_before<E: PolicyEntry>(a: E, b: E) -> bool {
    slot_before(a.slot(), b.slot()) || (a.slot() == b.slot() && a.stamp().is_after(b.stamp()))
}

/// Whether no entry stands behind one that it is kept before.
pub open spec fn is_ordered<E: PolicyEntry>(entries: Seq<E>) -> bool {
    forall|i: int, j: int|
        0 <= i < j < entries.len() ==> !entry_before(#[trigger] entries[j], #[trigger] entries[i])
}

/// Whether `output` is `input` put in order, entries with one key staying as they stood.
pub open spec fn is_stable_sort<E: PolicyEntry>(input: Seq<E>, output: Seq<E>) -> bool {
    &&& is_ordered(output)
    &&& forall|key: (Slot, Timestamp)|
        #[trigger] output.filter(has_key::<E>(key)) == input.filter(has_key::<E>(key))
}

fn before<E: PolicyEntry>(a: &E, b: &E) -> (r: bool)
    ensures
        r == entry_before(*a, *b),
{
    let left = a.slot_of();
    let right = b.slot_of();
    if left.no_disk != right.no_disk {
        !left.no_disk
    } else if left.width != right.width {
        left.width < right.width
    } else if left.size_gib != right.size_gib {
        left.size_gib < right.size_gib
    } else if left.io_chunk_bytes != right.io_chunk_bytes {
        left.io_chunk_bytes < right.io_chunk_bytes
    } else {
        a.stamp_of().after(b.stamp_of())
    }
}

/// Putting an entry behind all that it is not kept before keeps the order, and puts it last among
/// those with its key.
proof fn insertion_keeps_order<E: PolicyEntry>(sorted: Seq<E>, entry: E, p: int)
    requires
        is_ordered(sorted),
        0 <= p <= sorted.len(),
        forall|i: int| 0 <= i < p ==> !entry_before(entry, #[trigger] sorted[i]),
        p < sorted.len() ==> entry_before(entry, sorted[p]),
    ensures
        is_ordered(sorted.insert(p, entry)),
        forall|key: (Slot, Timestamp)|
            #[trigger] sorted.insert(p, entry).filter(has_key::<E>(key)) == (if order_key(entry)
                == key {
                sorted.filter(has_key::<E>(key)).push(entry)
            } else {
                sorted.filter(has_key::<E>(key))
            }),
{
    let out = sorted.insert(p, entry);
    let head = sorted.take(p);
    let tail = sorted.skip(p);
    assert forall|j: int| p <= j < sorted.len() implies entry_before(entry, #[trigger] sorted[j]) by {
        if j > p {
            assert(!entry_before(sorted[j], sorted[p]));
        }
    }
    assert forall|i: int, j: int| 0 <= i < j < out.len() implies !entry_before(
        #[trigger] out[j],
        #[trigger] out[i],
    ) by {
        if j == p {
            assert(out[i] == sorted[i]);
        } else if i == p {
            assert(out[j] == sorted[j - 1]);
            assert(entry_before(entry, sorted[j - 1]));
        } else {
            let a = if i < p {
                i
            } else {
                i - 1
            };
            let b = if j < p {
                j
            } else {
                j - 1
            };
            assert(out[i] == sorted[a] && out[j] == sorted[b]);
        }
    }
    assert forall|key: (Slot, Timestamp)| #[trigger]
        out.filter(has_key::<E>(key)) == (if order_key(entry) == key {
            sorted.filter(has_key::<E>(key)).push(entry)
        } else {
            sorted.filter(has_key::<E>(key))
        }) by {
        let test = has_key::<E>(key);
        assert(sorted =~= head + tail);
        assert(out =~= head.push(entry) + tail);
        Seq::filter_distributes_over_add(head, tail, test);
        Seq::filter_distributes_over_add(head.push(entry), tail, test);
        reveal(Seq::filter);
        assert(head.push(entry).drop_last() =~= head);
        if order_key(entry) == key {
            assert forall|i: int| 0 <= i < tail.len() implies !test(#[trigger] tail[i]) by {
                assert(tail[i] == sorted[p + i]);
            }
            tail.lemma_all_neg_filter_empty(test);
            assert(head.filter(test) + tail.filter(test) =~= head.filter(test));
            assert(head.filter(test).push(entry) + tail.filter(test) =~= head.filter(test).push(
                entry,
            ));
        }
    }
}

/// Puts entries in order.
pub fn sort_entries<E: PolicyEntry>(entries: Vec<E>) -> (r: Vec<E>)
    ensures
        is_stable_sort(entries@, r@),
        r@.len() == entries@.len(),
{
    let ghost input = entries@;
    let mut rest: Vec<E> = entries;
    let mut sorted: Vec<E> = Vec::new();
    proof {
        assert(input.take(0) =~= Seq::empty());
        assert(input.skip(0) =~= input);
    }
    while rest.len() > 0
        invariant
            rest@.len() + sorted@.len() == input.len(),
            rest@ == input.skip(sorted@.len() as int),
            is_stable_sort(input.take(sorted@.len() as int), sorted@),
        decreases rest@.len(),
    {
        let entry = rest.remove(0);
        let ghost n = sorted@.len() as int;
        let p: usize = insertion_point(&sorted, &entry);
        proof {
            assert(entry == input[n]);
            insertion_keeps_order(sorted@, entry, p as int);
            let next = input.take(n + 1);
            assert(next.drop_last() =~= input.take(n));
            reveal(Seq::filter);
            assert forall|key: (Slot, Timestamp)| #[trigger]
                sorted@.insert(p as int, entry).filter(has_key::<E>(key)) == next.filter(
                    has_key::<E>(key),
                ) by {
                assert(sorted@.filter(has_key::<E>(key)) == input.take(n).filter(
                    has_key::<E>(key),
                ));
            }
            assert(rest@ =~= input.skip(n + 1));
        }
        sorted.insert(p, entry);
    }
    assert(input.take(input.len() as int) =~= input);
    sorted
}

fn insertion_point<E: PolicyEntry>(sorted: &Vec<E>, entry: &E) -> (p: usize)
    ensures
        p <= sorted@.len(),
        forall|i: int| 0 <= i < p ==> !entry_before(*entry, #[trigger] sorted@[i]),
        p < sorted@.len() ==> entry_before(*entry, sorted@[p as int]),
{
    for p in 0..sorted.len()
        invariant
            forall|i: int| 0 <= i < p ==> !entry_before(*entry, #[trigger] sorted@[i]),
    {
        if before(entry, &sorted[p]) {
            return p;
        }
    }
    sorted.len()
}

/// The position of the first entry for a slot.
pub open spec fn slot_position<E: PolicyEntry>(entries: Seq<E>, slot: Slot) -> Option<int>
    decreases entries.len(),
{
    if entries.len() == 0 {
        None
    } else {
        match slot_position(entries.drop_last(), slot) {
            Some(i) => Some(i),
            None => if entries.last().slot() == slot {
                Some(entries.len() - 1)
            } else {
                None
            },
        }
    }
}

/// The entries with one for its slot put in: in place of the first that is there, else behind all.
pub open spec fn with_entry<E: PolicyEntry>(entries: Seq<E>, entry: E) -> Seq<E> {
    match slot_position(entries, entry.slot()) {
        Some(i) => entries.update(i, entry),
        None => entries.push(entry),
    }
}

proof fn slot_position_holds<E: PolicyEntry>(entries: Seq<E>, slot: Slot)
    ensures
        match slot_position(entries, slot) {
            Some(i) => 0 <= i < entries.len() && entries[i].slot() == slot,
            None => forall|i: int| 0 <= i < entries.len() ==> (#[trigger] entries[i]).slot() != slot,
        },
    decreases entries.len(),
{
    if entries.len() > 0 {
        let rest = entries.drop_last();
        slot_position_holds(rest, slot);
        if slot_position(entries, slot) is None {
            assert forall|i: int| 0 <= i < entries.len() implies (#[trigger] entries[i]).slot()
                != slot by {
                if i < rest.len() {
                    assert(rest[i] == entries[i]);
                }
            }
        }
    }
}

proof fn slot_position_extends<E: PolicyEntry>(entries: Seq<E>, n: int, slot: Slot)
    requires
        0 <= n <= entries.len(),
        slot_position(entries.take(n), slot) is Some,
    ensures
        slot_position(entries, slot) == slot_position(entries.take(n), slot),
    decreases entries.len(),
{
    if n < entries.len() {
        assert(entries.drop_last().take(n) =~= entries.take(n));
        slot_position_extends(entries.drop_last(), n, slot);
    } else {
        assert(entries.take(n) =~= entries);
    }
}

/// Puts an entry in and the entries in order.
pub fn upsert_entry<E: PolicyEntry>(entries: Vec<E>, entry: E) -> (r: Vec<E>)
    ensures
        is_stable_sort(with_entry(entries@, entry), r@),
        r@.len() == with_entry(entries@, entry).len(),
{
    let slot = entry.slot_of();
    let mut all: Vec<E> = entries;
    let mut found: Option<usize> = None;
    let mut i: usize = 0;
    while i < all.len() && found.is_none()
        invariant
            all@ == entries@,
            slot == entry.slot(),
            i <= all@.len(),
            match found {
                Some(k) => slot_position(all@, slot) == Some(k as int) && k < all@.len(),
                None => slot_position(all@.take(i as int), slot) is None,
            },
        decreases all@.len() - i,
    {
        proof {
            assert(all@.take(i + 1).drop_last() =~= all@.take(i as int));
        }
        if all[i].slot_of() == slot {
            proof {
                slot_position_extends(all@, i + 1, slot);
            }
            found = Some(i);
        }
        i = i + 1;
    }
    match found {
        Some(k) => {
            all.set(k, entry);
        },
        None => {
            assert(all@.take(all@.len() as int) =~= all@);
            all.push(entry);
        },
    }
    sort_entries(all)
}

/// How far apart two numbers are.
pub open spec fn distance(a: int, b: int) -> int {
    if a < b {
        b - a
    } else {
        a - b
    }
}

/// Whether one slot is nearer to a requested one than another: by disk use, then by the distance in
/// width, in size and in chunk size.
pub open spec fn slot_nearer(a: Slot, b: Slot, requested: Slot) -> bool {
    let width_a = distance(a.width as int, requested.width as int);
    let width_b = distance(b.width as int, requested.width as int);
    let size_a = distance(a.size_gib as int, requested.size_gib as int);
    let size_b = distance(b.size_gib as int, requested.size_gib as int);
    let chunk_a = distance(a.io_chunk_bytes as int, requested.io_chunk_bytes as int);
    let chunk_b = distance(b.io_chunk_bytes as int, requested.io_chunk_bytes as int);
    if (a.no_disk == requested.no_disk) != (b.no_disk == requested.no_disk) {
        a.no_disk == requested.no_disk
    } else if width_a != width_b {
        width_a < width_b
    } else if size_a != size_b {
        size_a < size_b
    } else {
        chunk_a < chunk_b
    }
}

/// Whether one entry suits a request better than another: it is nearer, or as near and newer.
pub open spec fn suits_better<E: PolicyEntry>(a: E, b: E, requested: Slot) -> bool {
    slot_nearer(a.slot(), b.slot(), requested) || (!slot_nearer(b.slot(), a.slot(), requested)
        && a.stamp().is_after(b.stamp()))
}

/// Whether the entry at `i` is the one to choose: no usable entry suits better, and none before it
/// suits as well.
pub open spec fn is_choice<E: PolicyEntry>(entries: Seq<E>, requested: Slot, i: int) -> bool {
    &&& 0 <= i < entries.len()
    &&& entries[i].is_usable()
    &&& forall|j: int|
        0 <= j < entries.len() && (#[trigger] entries[j]).is_usable() ==> !suits_better(
            entries[j],
            entries[i],
            requested,
        )
    &&& forall|j: int|
        0 <= j < i && (#[trigger] entries[j]).is_usable() ==> suits_better(
            entries[i],
            entries[j],
            requested,
        )
}

fn apart_u32(a: u32, b: u32) -> (r: u32)
    ensures
        r == distance(a as int, b as int),
{
    if a < b {
        b - a
    } else {
        a - b
    }
}

fn apart_u64(a: u64, b: u64) -> (r: u64)
    ensures
        r == distance(a as int, b as int),
{
    if a < b {
        b - a
    } else {
        a - b
    }
}

fn apart_usize(a: usize, b: usize) -> (r: usize)
    ensures
        r == distance(a as int, b as int),
{
    if a < b {
        b - a
    } else {
        a - b
    }
}

fn better<E: PolicyEntry>(a: &E, b: &E, requested: Slot) -> (r: bool)
    ensures
        r == suits_better(*a, *b, requested),
{
    let left = a.slot_of();
    let right = b.slot_of();
    let left_disk = left.no_disk == requested.no_disk;
    let right_disk = right.no_disk == requested.no_disk;
    let left_width: u32 = apart_u32(left.width, requested.width);
    let right_width: u32 = apart_u32(right.width, requested.width);
    let left_size: u64 = apart_u64(left.size_gib, requested.size_gib);
    let right_size: u64 = apart_u64(right.size_gib, requested.size_gib);
    let left_chunk: usize = apart_usize(left.io_chunk_bytes, requested.io_chunk_bytes);
    let right_chunk: usize = apart_usize(right.io_chunk_bytes, requested.io_chunk_bytes);
    if left_disk != right_disk {
        left_disk
    } else if left_width != right_width {
        left_width < right_width
    } else if left_size != right_size {
        left_size < right_size
    } else if left_chunk != right_chunk {
        left_chunk < right_chunk
    } else {
        a.stamp_of().after(b.stamp_of())
    }
}

/// The position of the entry to choose for a request.
pub fn choose_entry<E: PolicyEntry>(entries: &Vec<E>, requested: Slot) -> (r: Option<usize>)
    ensures
        match r {
            Some(i) => is_choice(entries@, requested, i as int),
            None => forall|i: int| 0 <= i < entries@.len() ==> !(#[trigger] entries@[i]).is_usable(),
        },
{
    let mut best: Option<usize> = None;
    for i in 0..entries.len()
        invariant
            match best {
                Some(k) => k < i && is_choice(entries@.take(i as int), requested, k as int),
                None => forall|j: int| 0 <= j < i ==> !(#[trigger] entries@[j]).is_usable(),
            },
    {
        let ghost seen = entries@.take(i as int);
        let ghost next = entries@.take(i + 1);
        assert(forall|j: int| 0 <= j < i ==> #[trigger] next[j] == seen[j]);
        if entries[i].usable() {
            match best {
                None => {
                    best = Some(i);
                    assert(forall|j: int| 0 <= j < i ==> #[trigger] seen[j] == entries@[j]);
                    assert(is_choice(next, requested, i as int));
                },
                Some(k) => {
                    if better(&entries[i], &entries[k], requested) {
                        best = Some(i);
                        assert forall|j: int| 0 <= j < i && (#[trigger] next[j]).is_usable() implies {
                            &&& suits_better(next[i as int], next[j], requested)
                            &&& !suits_better(next[j], next[i as int], requested)
                        } by {
                            assert(seen[j].is_usable());
                            assert(!suits_better(seen[j], seen[k as int], requested));
                        }
                        assert(is_choice(next, requested, i as int));
                    } else {
                        assert(seen[k as int] == next[k as int]);
                        assert(is_choice(next, requested, k as int));
                    }
                },
            }
        } else {
            match best {
                Some(k) => {
                    assert(seen[k as int] == next[k as int]);
                    assert(is_choice(next, requested, k as int));
                },
                None => {},
            }
        }
    }
    assert(entries@.take(entries@.len() as int) =~= entries@);
    best
}

/// There is at most one choice.
pub proof fn the_choice_is_unique<E: PolicyEntry>(
    entries: Seq<E>,
    requested: Slot,
    i: int,
    j: int,
)
    requires
        is_choice(entries, requested, i),
        is_choice(entries, requested, j),
    ensures
        i == j,
{
    if i < j {
        assert(suits_better(entries[j], entries[i], requested));
    } else if j < i {
        assert(suits_better(entries[i], entries[j], requested));
    }
}

/// A usable entry for exactly the requested slot is preferred to every entry for another slot.
pub proof fn exact_entries_are_preferred<E: PolicyEntry>(
    entries: Seq<E>,
    requested: Slot,
    i: int,
    j: int,
)
    requires
        is_choice(entries, requested, i),
        0 <= j < entries.len(),
        entries[j].is_usable(),
        entries[j].slot() == requested,
    ensures
        entries[i].slot() == requested,
{
    assert(!suits_better(entries[j], entries[i], requested));
}

/// Whether no slot has two entries.
pub open spec fn slots_are_distinct<E: PolicyEntry>(entries: Seq<E>) -> bool {
    forall|i: int, j: int|
        0 <= i < j < entries.len() ==> (#[trigger] entries[i]).slot() != (#[trigger] entries[j]).slot()
}

proof fn at_most_one_passes<E>(entries: Seq<E>, test: spec_fn(E) -> bool)
    requires
        forall|i: int, j: int|
            0 <= i < j < entries.len() ==> !(test(#[trigger] entries[i]) && test(
                #[trigger] entries[j],
            )),
    ensures
        entries.filter(test).len() <= 1,
    decreases entries.len(),
{
    reveal(Seq::filter);
    if entries.len() > 0 {
        let rest = entries.drop_last();
        assert forall|i: int, j: int| 0 <= i < j < rest.len() implies !(test(#[trigger] rest[i])
            && test(#[trigger] rest[j])) by {
            assert(rest[i] == entries[i] && rest[j] == entries[j]);
        }
        at_most_one_passes(rest, test);
        if test(entries.last()) {
            assert forall|i: int| 0 <= i < rest.len() implies !test(#[trigger] rest[i]) by {
                assert(rest[i] == entries[i]);
                assert(entries.last() == entries[entries.len() - 1]);
            }
            rest.lemma_all_neg_filter_empty(test);
        }
    }
}

proof fn two_pass<E>(entries: Seq<E>, test: spec_fn(E) -> bool, i: int, j: int)
    requires
        0 <= i < j < entries.len(),
        test(entries[i]),
        test(entries[j]),
    ensures
        entries.filter(test).len() >= 2,
    decreases entries.len(),
{
    reveal(Seq::filter);
    let rest = entries.drop_last();
    if j < rest.len() {
        two_pass(rest, test, i, j);
    } else {
        rest.lemma_filter_contains(test, i);
        assert(rest[i] == entries[i]);
        assert(rest.filter(test).contains(rest[i]));
        assert(rest.filter(test).len() >= 1);
    }
}

/// Putting entries in order neither adds nor loses any.
proof fn sorting_keeps_entries<E: PolicyEntry>(input: Seq<E>, output: Seq<E>, entry: E)
    requires
        is_stable_sort(input, output),
    ensures
        input.contains(entry) <==> output.contains(entry),
{
    let test = has_key::<E>(order_key(entry));
    assert(output.filter(test) == input.filter(test));
    if input.contains(entry) {
        input.lemma_filter_contains(test, input.index_of(entry));
        output.lemma_filter_contains_rev(test, entry);
    }
    if output.contains(entry) {
        output.lemma_filter_contains(test, output.index_of(entry));
        input.lemma_filter_contains_rev(test, entry);
    }
}

/// Where each slot has at most one entry, that stays so when an entry is put in; the entry is there
/// afterwards, and the entries of all other slots are as they were.
pub proof fn upserting_keeps_one_entry_per_slot<E: PolicyEntry>(
    entries: Seq<E>,
    entry: E,
    output: Seq<E>,
    other: E,
)
    requires
        slots_are_distinct(entries),
        is_stable_sort(with_entry(entries, entry), output),
        other.slot() != entry.slot(),
    ensures
        slots_are_distinct(output),
        output.contains(entry),
        output.contains(other) <==> entries.contains(other),
{
    let input = with_entry(entries, entry);
    slot_position_holds(entries, entry.slot());
    assert(slots_are_distinct(input)) by {
        assert forall|i: int, j: int| 0 <= i < j < input.len() implies (#[trigger] input[i]).slot()
            != (#[trigger] input[j]).slot() by {
            match slot_position(entries, entry.slot()) {
                Some(k) => {
                    assert(entries[i].slot() != entries[j].slot());
                },
                None => {
                    if j < entries.len() {
                        assert(entries[i].slot() != entries[j].slot());
                    }
                },
            }
        }
    }
    assert(input.contains(entry)) by {
        match slot_position(entries, entry.slot()) {
            Some(k) => {
                assert(input[k] == entry);
            },
            None => {
                assert(input[entries.len() as int] == entry);
            },
        }
    }
    sorting_keeps_entries(input, output, entry);
    sorting_keeps_entries(input, output, other);
    assert(input.contains(other) <==> entries.contains(other)) by {
        if entries.contains(other) {
            let k = entries.index_of(other);
            assert(input[k] == other);
        }
        if input.contains(other) {
            let k = input.index_of(other);
            assert(entries[k] == other);
        }
    }
    assert forall|i: int, j: int| 0 <= i < j < output.len() implies (#[trigger] output[i]).slot()
        != (#[trigger] output[j]).slot() by {
        if output[i].slot() == output[j].slot() {
            sorting_keeps_entries(input, output, output[i]);
            sorting_keeps_entries(input, output, output[j]);
            assert(output.contains(output[i]) && output.contains(output[j]));
            let a = input.index_of(output[i]);
            let b = input.index_of(output[j]);
            assert(a == b) by {
                if a < b {
                    assert(input[a].slot() != input[b].slot());
                } else if b < a {
                    assert(input[b].slot() != input[a].slot());
                }
            }
            let test = has_key::<E>(order_key(output[i]));
            two_pass(output, test, i, j);
            assert(output.filter(test) == input.filter(test));
            assert forall|x: int, y: int| 0 <= x < y < input.len() implies !(test(
                #[trigger] input[x],
            ) && test(#[trigger] input[y])) by {
                assert(input[x].slot() != input[y].slot());
            }
            at_most_one_passes(input, test);
        }
    }
}

/// An entry that is put in and recommends something is what its slot is answered with afterwards.
pub proof fn an_upserted_entry_is_chosen<E: PolicyEntry>(
    entries: Seq<E>,
    entry: E,
    output: Seq<E>,
    i: int,
)
    requires
        slots_are_distinct(entries),
        entry.is_usable(),
        is_stable_sort(with_entry(entries, entry), output),
        is_choice(output, entry.slot(), i),
    ensures
        output[i] == entry,
{
    let elsewhere = output[i];
    if elsewhere.slot() != entry.slot() {
        upserting_keeps_one_entry_per_slot(entries, entry, output, elsewhere);
        exact_entries_are_preferred(output, entry.slot(), i, output.index_of(entry));
    } else {
        slot_position_holds(entries, entry.slot());
        sorting_keeps_entries(with_entry(entries, entry), output, elsewhere);
        let input = with_entry(entries, entry);
        assert(output.contains(elsewhere));
        let k = input.index_of(elsewhere);
        match slot_position(entries, entry.slot()) {
            Some(p) => {
                if k != p {
                    assert(input[k] == entries[k]);
                    if k < p {
                        assert(entries[k].slot() != entries[p].slot());
                    } else {
                        assert(entries[p].slot() != entries[k].slot());
                    }
                }
            },
            None => {
                if k < entries.len() {
                    assert(input[k] == entries[k]);
                }
            },
        }
    }
}

/// The entry that is chosen compared with any other that recommends something. An entry with the
/// requested disk mode comes before one without. Among entries of one disk mode the chosen one has the
/// least difference in width from the request; only among those of equal width difference does the
/// size difference decide, then the chunk size difference, then the time of tuning, the latest first,
/// and at last the place in the policy.
pub proof fn the_nearest_entry_is_chosen<E: PolicyEntry>(
    entries: Seq<E>,
    requested: Slot,
    i: int,
    j: int,
)
    requires
        is_choice(entries, requested, i),
        0 <= j < entries.len(),
        entries[j].is_usable(),
    ensures
        entries[i].is_usable(),
        ({
            let chosen = entries[i].slot();
            let other = entries[j].slot();
            let chosen_at = entries[i].stamp();
            let other_at = entries[j].stamp();
            let chosen_width = vstd::math::abs(chosen.width - requested.width);
            let other_width = vstd::math::abs(other.width - requested.width);
            let chosen_size = vstd::math::abs(chosen.size_gib - requested.size_gib);
            let other_size = vstd::math::abs(other.size_gib - requested.size_gib);
            let chosen_chunk = vstd::math::abs(chosen.io_chunk_bytes - requested.io_chunk_bytes);
            let other_chunk = vstd::math::abs(other.io_chunk_bytes - requested.io_chunk_bytes);
            &&& other.no_disk == requested.no_disk ==> chosen.no_disk == requested.no_disk
            &&& chosen.no_disk == other.no_disk ==> {
                &&& chosen_width <= other_width
                &&& chosen_width == other_width ==> chosen_size <= other_size
                &&& chosen_width == other_width && chosen_size == other_size ==> chosen_chunk
                    <= other_chunk
                &&& chosen_width == other_width && chosen_size == other_size && chosen_chunk
                    == other_chunk ==> {
                    &&& other_at.secs <= chosen_at.secs
                    &&& other_at.secs == chosen_at.secs ==> other_at.nanos <= chosen_at.nanos
                    &&& other_at == chosen_at ==> i <= j
                }
            }
        }),
{
    assert(!suits_better(entries[j], entries[i], requested));
    if j < i {
        assert(suits_better(entries[i], entries[j], requested));
    }
}

/// The order into which entries are put, for any two of them: those on disk before those without;
/// among these, by width, then by size, then by chunk size, the smaller first; and in one slot by the
/// time of tuning, the latest first.
pub proof fn kept_entries_rise<E: PolicyEntry>(input: Seq<E>, entries: Seq<E>, i: int, j: int)
    requires
        is_stable_sort(input, entries),
        0 <= i < j < entries.len(),
    ensures
        ({
            let a = entries[i].slot();
            let b = entries[j].slot();
            let first_at = entries[i].stamp();
            let second_at = entries[j].stamp();
            &&& a.no_disk ==> b.no_disk
            &&& a.no_disk == b.no_disk ==> a.width <= b.width
            &&& a.no_disk == b.no_disk && a.width == b.width ==> a.size_gib <= b.size_gib
            &&& a.no_disk == b.no_disk && a.width == b.width && a.size_gib == b.size_gib
                ==> a.io_chunk_bytes <= b.io_chunk_bytes
            &&& a == b ==> {
                &&& second_at.secs <= first_at.secs
                &&& second_at.secs == first_at.secs ==> second_at.nanos <= first_at.nanos
            }
        }),
{
    assert(!entry_before(entries[j], entries[i]));
}

/// An entry that is put in takes the place of the first one with its slot; without one, it comes
/// behind all. No other entry is touched.
pub proof fn an_entry_takes_the_place_of_its_slot<E: PolicyEntry>(entries: Seq<E>, entry: E, k: int)
    requires
        0 <= k <= entries.len(),
        k < entries.len() ==> entries[k].slot() == entry.slot(),
        forall|j: int| 0 <= j < k ==> (#[trigger] entries[j]).slot() != entry.slot(),
    ensures
        ({
            let after = with_entry(entries, entry);
            &&& after.len() == if k < entries.len() {
                entries.len()
            } else {
                entries.len() + 1
            }
            &&& after[k] == entry
            &&& forall|j: int|
                0 <= j < entries.len() && j != k ==> #[trigger] after[j] == entries[j]
        }),
{
    slot_position_holds(entries, entry.slot());
    match slot_position(entries, entry.slot()) {
        Some(p) => {
            first_slot_position(entries, entry.slot());
            assert(p == k);
        },
        None => {
            if k < entries.len() {
                assert(entries[k].slot() != entry.slot());
            }
        },
    }
}

proof fn first_slot_position<E: PolicyEntry>(entries: Seq<E>, slot: Slot)
    ensures
        slot_position(entries, slot) matches Some(i) ==> forall|j: int|
            0 <= j < i ==> (#[trigger] entries[j]).slot() != slot,
    decreases entries.len(),
{
    if entries.len() > 0 {
        let rest = entries.drop_last();
        first_slot_position(rest, slot);
        slot_position_holds(rest, slot);
        assert(forall|j: int| 0 <= j < rest.len() ==> #[trigger] entries[j] == rest[j]);
    }
}

/// Putting entries in order neither adds an entry nor loses one, and keeps entries of one slot and one
/// time in the order in which they came.
pub proof fn ordering_keeps_every_entry<E: PolicyEntry>(
    input: Seq<E>,
    output: Seq<E>,
    entry: E,
    slot: Slot,
    stamp: Timestamp,
)
    requires
        is_stable_sort(input, output),
    ensures
        input.contains(entry) <==> output.contains(entry),
        output.filter(|other: E| other.slot() == slot && other.stamp() == stamp) == input.filter(
            |other: E| other.slot() == slot && other.stamp() == stamp,
        ),
{
    sorting_keeps_entries(input, output, entry);
    let test = |other: E| other.slot() == slot && other.stamp() == stamp;
    assert(test =~= has_key::<E>((slot, stamp)));
}

} // verus!
