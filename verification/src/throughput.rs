//! Rates as they are stored and compared: the bits of a double-precision number, in the total order
//! of IEEE 754.

use vstd::prelude::*;

verus! {

/// A rate in gigabits per second, as the bits of a double-precision number.
#[derive(Debug, Clone, Copy, PartialEq, Eq, Structural)]
pub struct Throughput {
    pub bits: u64,
}

/// The bit that is set in negative numbers.
pub const SIGN_BIT: u64 = 0x8000_0000_0000_0000;

impl Throughput {
    /// The place of the number in the total order: negative numbers come before the others, the
    /// larger their magnitude the earlier.
    pub open spec fn rank(self) -> int {
        if self.bits >= SIGN_BIT {
            SIGN_BIT - 1 - (self.bits - SIGN_BIT)
        } else {
            SIGN_BIT + self.bits
        }
    }

    /// Zero.
    pub fn zero() -> (r: Self)
        ensures
            r.bits == 0,
    {
        Throughput { bits: 0 }
    }

    /// Whether `self` comes before `other`.
    pub fn is_below(self, other: Throughput) -> (r: bool)
        ensures
            r == (self.rank() < other.rank()),
            self.bits < SIGN_BIT && other.bits < SIGN_BIT ==> r == (self.bits < other.bits),
    {
        if self.bits >= SIGN_BIT {
            if other.bits >= SIGN_BIT {
                self.bits > other.bits
            } else {
                true
            }
        } else if other.bits >= SIGN_BIT {
            false
        } else {
            self.bits < other.bits
        }
    }
}

/// Numbers of one rank are one number, bit for bit.
pub proof fn ranks_are_distinct(a: Throughput, b: Throughput)
    ensures
        a.rank() == b.rank() ==> a == b,
{
}

/// Whether the value at `i` is the one to choose among those that are in the running: none of them is
/// above it, and none behind it is as high.
pub open spec fn is_last_highest(values: Seq<Option<Throughput>>, i: int) -> bool {
    &&& 0 <= i < values.len()
    &&& values[i] matches Some(best) && {
        &&& forall|j: int|
            0 <= j < values.len() ==> (#[trigger] values[j] matches Some(value) ==> value.rank()
                <= best.rank())
        &&& forall|j: int|
            i < j < values.len() ==> (#[trigger] values[j] matches Some(value) ==> value.rank()
                < best.rank())
    }
}

/// The position of the highest value, the last of several that are equal. `None` is not in the
/// running.
pub open spec fn last_highest(values: Seq<Option<Throughput>>) -> Option<int>
    decreases values.len(),
{
    if values.len() == 0 {
        None
    } else {
        match (last_highest(values.drop_last()), values.last()) {
            (before, None) => before,
            (None, Some(_)) => Some(values.len() - 1),
            (Some(i), Some(value)) => if values[i] matches Some(best) && value.rank()
                < best.rank() {
                Some(i)
            } else {
                Some(values.len() - 1)
            },
        }
    }
}

/// No value is above the highest, and none behind it is as high. There is none only where nothing is
/// in the running.
pub proof fn last_highest_is_highest(values: Seq<Option<Throughput>>)
    ensures
        match last_highest(values) {
            Some(i) => is_last_highest(values, i),
            None => forall|i: int| 0 <= i < values.len() ==> #[trigger] values[i] is None,
        },
    decreases values.len(),
{
    if values.len() > 0 {
        let rest = values.drop_last();
        last_highest_is_highest(rest);
        assert(forall|j: int| 0 <= j < rest.len() ==> #[trigger] values[j] == rest[j]);
    }
}

pub fn highest(values: &Vec<Option<Throughput>>) -> (r: Option<usize>)
    ensures
        match r {
            Some(i) => last_highest(values@) == Some(i as int) && is_last_highest(
                values@,
                i as int,
            ),
            None => last_highest(values@) is None && forall|i: int|
                0 <= i < values@.len() ==> #[trigger] values@[i] is None,
        },
{
    let mut best: Option<(usize, Throughput)> = None;
    for i in 0..values.len()
        invariant
            match best {
                Some((k, top)) => {
                    &&& last_highest(values@.take(i as int)) == Some(k as int)
                    &&& k < i
                    &&& values@[k as int] == Some(top)
                },
                None => last_highest(values@.take(i as int)) is None,
            },
    {
        proof {
            assert(values@.take(i + 1).drop_last() =~= values@.take(i as int));
        }
        match values[i] {
            Some(value) => match best {
                Some((_, top)) => {
                    if !value.is_below(top) {
                        best = Some((i, value));
                    }
                },
                None => {
                    best = Some((i, value));
                },
            },
            None => {},
        }
    }
    proof {
        assert(values@.take(values@.len() as int) =~= values@);
        last_highest_is_highest(values@);
    }
    match best {
        Some((k, _)) => Some(k),
        None => None,
    }
}

/// Whether values stand in rising order.
pub open spec fn is_rising(values: Seq<Throughput>) -> bool {
    forall|i: int, j: int|
        0 <= i <= j < values.len() ==> (#[trigger] values[i]).rank() <= (#[trigger] values[j]).rank()
}

/// The values in rising order.
pub fn sorted_values(values: &Vec<Throughput>) -> (r: Vec<Throughput>)
    ensures
        is_rising(r@),
        forall|i: int, j: int|
            0 <= i < j < r@.len() ==> !((#[trigger] r@[j]).rank() < (#[trigger] r@[i]).rank()),
        r@.to_multiset() == values@.to_multiset(),
        r@.len() == values@.len(),
{
    broadcast use vstd::seq_lib::group_to_multiset_ensures;

    let mut sorted: Vec<Throughput> = Vec::new();
    proof {
        assert(values@.take(0) =~= Seq::empty());
    }
    for i in 0..values.len()
        invariant
            sorted@.len() == i,
            is_rising(sorted@),
            sorted@.to_multiset() == values@.take(i as int).to_multiset(),
    {
        let value = values[i];
        let mut p: usize = 0;
        while p < sorted.len() && !value.is_below(sorted[p])
            invariant
                p <= sorted@.len(),
                forall|k: int| 0 <= k < p ==> (#[trigger] sorted@[k]).rank() <= value.rank(),
            decreases sorted@.len() - p,
        {
            p = p + 1;
        }
        let ghost before = sorted@;
        sorted.insert(p, value);
        proof {
            let after = sorted@;
            assert(after =~= before.insert(p as int, value));
            assert forall|a: int, b: int| 0 <= a <= b < after.len() implies (
            #[trigger] after[a]).rank() <= (#[trigger] after[b]).rank() by {
                let x = if a < p {
                    a
                } else {
                    a - 1
                };
                let y = if b < p {
                    b
                } else {
                    b - 1
                };
                if a != p && b != p {
                    assert(after[a] == before[x] && after[b] == before[y]);
                } else if a == p && b > p {
                    assert(after[b] == before[y]);
                    assert(before[p as int].rank() <= before[y].rank());
                } else if b == p && a < p {
                    assert(after[a] == before[a]);
                }
            }
            assert(values@.take(i + 1) =~= values@.take(i as int).push(value));
            vstd::seq_lib::to_multiset_build(values@.take(i as int), value);
            vstd::seq_lib::to_multiset_insert(before, p as int, value);
        }
    }
    assert(values@.take(values@.len() as int) =~= values@);
    sorted
}

/// Rates rank as the numbers do that their bits stand for: those without the sign bit by their bits,
/// those with it the other way round, and before all others.
pub proof fn rates_rank_as_numbers(a: Throughput, b: Throughput)
    ensures
        a.bits < 0x8000_0000_0000_0000 && b.bits < 0x8000_0000_0000_0000 ==> (a.rank() < b.rank()
            <==> a.bits < b.bits),
        a.bits >= 0x8000_0000_0000_0000 && b.bits >= 0x8000_0000_0000_0000 ==> (a.rank() < b.rank()
            <==> a.bits > b.bits),
        a.bits >= 0x8000_0000_0000_0000 && b.bits < 0x8000_0000_0000_0000 ==> a.rank() < b.rank(),
{
}

} // verus!
