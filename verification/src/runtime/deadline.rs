//! Deadlines of one generation, earliest first.

use crate::clock::MonotonicTime;
use crate::runtime::reducer::RequestKey;
use std::collections::VecDeque;
use vstd::prelude::*;

verus! {

#[derive(Clone, Copy, Debug, PartialEq, Eq, Structural)]
pub enum DeadlineKind {
    /// The caller stops waiting.
    Caller,
    /// The wire stops being owed an answer that nobody waits for.
    Tombstone,
}

#[derive(Clone, Copy, Debug, PartialEq, Eq, Structural)]
pub struct DeadlineEntry {
    pub at: MonotonicTime,
    pub sequence: u64,
    pub key: RequestKey,
    pub kind: DeadlineKind,
    pub version: u64,
}

/// The order in which deadlines fire: by time, then by the order in which they
/// were set; the remaining fields make the order total.
pub open spec fn fires_before(a: DeadlineEntry, b: DeadlineEntry) -> bool {
    if a.at@ != b.at@ {
        a.at@ < b.at@
    } else if a.sequence != b.sequence {
        a.sequence < b.sequence
    } else if a.key.generation.0 != b.key.generation.0 {
        a.key.generation.0 < b.key.generation.0
    } else if a.key.message_id != b.key.message_id {
        a.key.message_id < b.key.message_id
    } else if a.kind != b.kind {
        a.kind == DeadlineKind::Caller
    } else {
        a.version < b.version
    }
}

/// No deadline stands behind one that fires after it.
pub open spec fn in_firing_order(deadlines: Seq<DeadlineEntry>) -> bool {
    forall|i: int, j: int|
        0 <= i < j < deadlines.len() ==> !fires_before(#[trigger] deadlines[j], #[trigger] deadlines[i])
}

/// How many deadlines at the front do not fire after `entry`.
pub open spec fn rank(deadlines: Seq<DeadlineEntry>, entry: DeadlineEntry) -> int
    decreases deadlines.len(),
{
    if deadlines.len() == 0 || fires_before(entry, deadlines[0]) {
        0
    } else {
        1 + rank(deadlines.drop_first(), entry)
    }
}

/// The deadlines with one more, in its place.
pub open spec fn scheduled(deadlines: Seq<DeadlineEntry>, entry: DeadlineEntry) -> Seq<
    DeadlineEntry,
> {
    deadlines.insert(rank(deadlines, entry), entry)
}

/// A measure of the work that a set of deadlines can still cause: a caller's
/// deadline may put one tombstone in its place.
pub open spec fn outstanding(deadlines: Seq<DeadlineEntry>) -> nat
    decreases deadlines.len(),
{
    if deadlines.len() == 0 {
        0
    } else {
        weight(deadlines[0]) + outstanding(deadlines.drop_first())
    }
}

pub open spec fn weight(entry: DeadlineEntry) -> nat {
    if entry.kind == DeadlineKind::Caller {
        2
    } else {
        1
    }
}

pub proof fn rank_is_a_place(deadlines: Seq<DeadlineEntry>, entry: DeadlineEntry)
    ensures
        0 <= rank(deadlines, entry) <= deadlines.len(),
        forall|i: int| 0 <= i < rank(deadlines, entry) ==> !fires_before(entry, deadlines[i]),
        rank(deadlines, entry) < deadlines.len() ==> fires_before(
            entry,
            deadlines[rank(deadlines, entry)],
        ),
    decreases deadlines.len(),
{
    if deadlines.len() > 0 && !fires_before(entry, deadlines[0]) {
        let rest = deadlines.drop_first();
        rank_is_a_place(rest, entry);
        assert forall|i: int| 0 <= i < rank(deadlines, entry) implies !fires_before(
            entry,
            deadlines[i],
        ) by {
            if i > 0 {
                assert(rest[i - 1] == deadlines[i]);
            }
        }
    }
}

/// Scheduling keeps the firing order.
pub proof fn scheduling_keeps_order(deadlines: Seq<DeadlineEntry>, entry: DeadlineEntry)
    requires
        in_firing_order(deadlines),
    ensures
        in_firing_order(scheduled(deadlines, entry)),
        scheduled(deadlines, entry).len() == deadlines.len() + 1,
        forall|e: DeadlineEntry| #[trigger]
            scheduled(deadlines, entry).contains(e) <==> e == entry || deadlines.contains(e),
{
    rank_is_a_place(deadlines, entry);
    let k = rank(deadlines, entry);
    let s = scheduled(deadlines, entry);
    assert forall|i: int, j: int| 0 <= i < j < s.len() implies !fires_before(
        #[trigger] s[j],
        #[trigger] s[i],
    ) by {
        if k < deadlines.len() {
            let next = deadlines[k];
            if i == k {
                if j - 1 > k {
                    assert(!fires_before(deadlines[j - 1], next));
                }
            }
        }
    }
    assert forall|e: DeadlineEntry| #[trigger] s.contains(e) <==> e == entry
        || deadlines.contains(e) by {
        if s.contains(e) {
            let i = choose|i: int| 0 <= i < s.len() && s[i] == e;
            if i < k {
                assert(deadlines[i] == e);
            } else if i > k {
                assert(deadlines[i - 1] == e);
            }
        }
        if e == entry {
            assert(s[k] == e);
        }
        if deadlines.contains(e) {
            let i = choose|i: int| 0 <= i < deadlines.len() && deadlines[i] == e;
            if i < k {
                assert(s[i] == e);
            } else {
                assert(s[i + 1] == e);
            }
        }
    }
}

pub proof fn scheduling_adds_weight(deadlines: Seq<DeadlineEntry>, entry: DeadlineEntry)
    ensures
        outstanding(scheduled(deadlines, entry)) == outstanding(deadlines) + weight(entry),
    decreases deadlines.len(),
{
    rank_is_a_place(deadlines, entry);
    let s = scheduled(deadlines, entry);
    if deadlines.len() == 0 || fires_before(entry, deadlines[0]) {
        assert(s.drop_first() =~= deadlines);
    } else {
        let rest = deadlines.drop_first();
        scheduling_adds_weight(rest, entry);
        rank_is_a_place(rest, entry);
        assert(s.drop_first() =~= scheduled(rest, entry));
    }
}

/// Whether `a` fires before `b`.
pub fn earlier(a: &DeadlineEntry, b: &DeadlineEntry) -> (before: bool)
    ensures
        before == fires_before(*a, *b),
{
    if !(a.at.at_or_before(b.at) && b.at.at_or_before(a.at)) {
        a.at.at_or_before(b.at)
    } else if a.sequence != b.sequence {
        a.sequence < b.sequence
    } else if a.key.generation.0 != b.key.generation.0 {
        a.key.generation.0 < b.key.generation.0
    } else if a.key.message_id != b.key.message_id {
        a.key.message_id < b.key.message_id
    } else if a.kind != b.kind {
        a.kind == DeadlineKind::Caller
    } else {
        a.version < b.version
    }
}

/// Puts a deadline in its place.
pub fn schedule(deadlines: &mut VecDeque<DeadlineEntry>, entry: DeadlineEntry)
    ensures
        final(deadlines)@ == scheduled(old(deadlines)@, entry),
{
    let mut place: usize = 0;
    assert(deadlines@.skip(0) =~= deadlines@);
    while place < deadlines.len() && !earlier(&entry, &deadlines[place])
        invariant
            place <= deadlines@.len(),
            deadlines@ == old(deadlines)@,
            rank(deadlines@, entry) == place + rank(deadlines@.skip(place as int), entry),
        decreases deadlines@.len() - place,
    {
        assert(deadlines@.skip(place as int).drop_first() =~= deadlines@.skip(place + 1));
        place += 1;
    }
    assert(rank(deadlines@, entry) == place);
    deadlines.insert(place, entry);
}

} // verus!
