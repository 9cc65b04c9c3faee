//! Operations that are on their way, and who waits for them.
//!
//! An operation's result is handed to its waiter, or kept until somebody asks
//! for it. One whose caller was told an outcome while the wire still owes an
//! answer stays in the table, draining, until that answer settles it.

use crate::runtime::error::RuntimeError;
use crate::runtime::operation::{ReplayPolicy, ResponsePolicy};
use crate::runtime::reducer::{ReduceEffect, RequestKey, TerminalOutcome};
use crate::runtime::state::OwnerEffect;
use vstd::prelude::*;

verus! {

/// How an operation ended for its caller. A response says whether the raw
/// bytes of its request go with it.
#[derive(Clone, Copy, Debug, PartialEq, Eq, Structural)]
pub enum OperationOutcome {
    Response { request_raw: bool },
    Failed(RuntimeError),
}

#[derive(Debug)]
pub struct OperationPending {
    pub key: RequestKey,
    pub response: ResponsePolicy,
    pub replay: ReplayPolicy,
    /// Whether the caller wants the raw bytes of the request back.
    pub wants_raw: bool,
    /// Whether the raw bytes of the request are retained.
    pub request_raw: bool,
    /// Whether somebody waits for the result.
    pub waiter: bool,
    pub buffered: Option<OperationOutcome>,
    pub draining: bool,
    pub caller_completed: bool,
}

/// What somebody who asks for a result is told.
#[derive(Clone, Copy, Debug, PartialEq, Eq, Structural)]
pub enum AwaitDecision {
    Refused(RuntimeError),
    Ready(OperationOutcome),
    Parked,
}

/// An outcome that goes to the waiter of an operation.
#[derive(Clone, Copy, Debug, PartialEq, Eq, Structural)]
pub struct Delivery {
    pub key: RequestKey,
    pub outcome: OperationOutcome,
}

pub open spec fn known(entries: Seq<OperationPending>, key: RequestKey) -> bool {
    exists|i: int| 0 <= i < entries.len() && (#[trigger] entries[i]).key == key
}

pub open spec fn place(entries: Seq<OperationPending>, key: RequestKey) -> int {
    choose|i: int| 0 <= i < entries.len() && (#[trigger] entries[i]).key == key
}

pub open spec fn distinct(entries: Seq<OperationPending>) -> bool {
    forall|i: int, j: int|
        0 <= i < j < entries.len() ==> (#[trigger] entries[i]).key != (#[trigger] entries[j]).key
}

/// The outcome with the request's raw bytes attached to a response.
pub open spec fn with_raw(outcome: OperationOutcome, entry: OperationPending) -> OperationOutcome {
    match outcome {
        OperationOutcome::Response { request_raw } => OperationOutcome::Response {
            request_raw: request_raw || entry.request_raw,
        },
        failed => failed,
    }
}

/// Ends an operation: its waiter gets the outcome and it leaves the table, or
/// the outcome is kept for whoever asks.
pub open spec fn ended(entries: Seq<OperationPending>, key: RequestKey, outcome: OperationOutcome) -> (
    Seq<OperationPending>,
    Option<Delivery>,
) {
    if !known(entries, key) {
        (entries, None)
    } else {
        let i = place(entries, key);
        let entry = entries[i];
        let attached = with_raw(outcome, entry);
        if entry.waiter {
            (entries.remove(i), Some(Delivery { key, outcome: attached }))
        } else {
            (
                entries.update(
                    i,
                    OperationPending {
                        buffered: Some(attached),
                        request_raw: entry.request_raw && (outcome is Failed || outcome == (
                        OperationOutcome::Response { request_raw: true })),
                        ..entry
                    },
                ),
                None,
            )
        }
    }
}

/// An operation that is cancelled on the wire drains.
pub open spec fn drained(entries: Seq<OperationPending>, key: RequestKey) -> Seq<OperationPending> {
    if !known(entries, key) {
        entries
    } else {
        let i = place(entries, key);
        entries.update(i, OperationPending { draining: true, request_raw: false, ..entries[i] })
    }
}

/// Tells the caller of an operation an outcome other than a response. One that
/// drains stays in the table.
pub open spec fn told_outcome(
    entries: Seq<OperationPending>,
    key: RequestKey,
    outcome: TerminalOutcome,
) -> (Seq<OperationPending>, Option<Delivery>) {
    let failed = OperationOutcome::Failed(RuntimeError::Terminal(outcome));
    if known(entries, key) && entries[place(entries, key)].draining {
        let i = place(entries, key);
        let entry = entries[i];
        if entry.waiter {
            (
                entries.update(
                    i,
                    OperationPending { waiter: false, caller_completed: true, ..entry },
                ),
                Some(Delivery { key, outcome: failed }),
            )
        } else {
            (entries.update(i, OperationPending { buffered: Some(failed), ..entry }), None)
        }
    } else {
        ended(entries, key, failed)
    }
}

pub open spec fn wire_cancels_applied(entries: Seq<OperationPending>, effects: Seq<OwnerEffect>) -> Seq<
    OperationPending,
>
    decreases effects.len(),
{
    if effects.len() == 0 {
        entries
    } else {
        let earlier = wire_cancels_applied(entries, effects.drop_last());
        match effects.last() {
            OwnerEffect::BestEffortWireCancel(key) => drained(earlier, key),
            _ => earlier,
        }
    }
}

pub open spec fn appended(deliveries: Seq<Delivery>, delivery: Option<Delivery>) -> Seq<Delivery> {
    match delivery {
        Some(delivery) => deliveries.push(delivery),
        None => deliveries,
    }
}

pub open spec fn outcomes_applied(entries: Seq<OperationPending>, effects: Seq<OwnerEffect>) -> (
    Seq<OperationPending>,
    Seq<Delivery>,
)
    decreases effects.len(),
{
    if effects.len() == 0 {
        (entries, Seq::empty())
    } else {
        let (earlier, deliveries) = outcomes_applied(entries, effects.drop_last());
        match effects.last() {
            OwnerEffect::Request { key, effect: ReduceEffect::Publish(outcome) } => {
                if outcome != TerminalOutcome::Response {
                    let (next, delivery) = told_outcome(earlier, key, outcome);
                    (next, appended(deliveries, delivery))
                } else {
                    (earlier, deliveries)
                }
            },
            _ => (earlier, deliveries),
        }
    }
}

/// Applies the effects of one event: first what is cancelled on the wire
/// begins to drain, then callers are told their outcomes.
pub open spec fn effects_applied(entries: Seq<OperationPending>, effects: Seq<OwnerEffect>) -> (
    Seq<OperationPending>,
    Seq<Delivery>,
) {
    outcomes_applied(wire_cancels_applied(entries, effects), effects)
}

/// Somebody asks for the result of an operation.
pub open spec fn asked(entries: Seq<OperationPending>, key: RequestKey) -> (
    Seq<OperationPending>,
    AwaitDecision,
) {
    if !known(entries, key) {
        (entries, AwaitDecision::Refused(RuntimeError::UnknownRequest(key)))
    } else {
        let i = place(entries, key);
        let entry = entries[i];
        match entry.buffered {
            Some(outcome) => (
                if entry.draining {
                    entries.update(
                        i,
                        OperationPending { buffered: None, caller_completed: true, ..entry },
                    )
                } else {
                    entries.remove(i)
                },
                AwaitDecision::Ready(outcome),
            ),
            None => if entry.waiter || entry.caller_completed {
                (entries, AwaitDecision::Refused(RuntimeError::AlreadyAwaited(key)))
            } else {
                (
                    entries.update(i, OperationPending { waiter: true, ..entry }),
                    AwaitDecision::Parked,
                )
            },
        }
    }
}

pub struct OperationTable {
    entries: Vec<OperationPending>,
}

impl View for OperationTable {
    type V = Seq<OperationPending>;

    closed spec fn view(&self) -> Seq<OperationPending> {
        self.entries@
    }
}

impl OperationTable {
    pub fn new() -> (table: Self)
        ensures
            table@ == Seq::<OperationPending>::empty(),
            distinct(table@),
    {
        OperationTable { entries: Vec::new() }
    }

    pub fn len(&self) -> (len: usize)
        ensures
            len == self@.len(),
    {
        self.entries.len()
    }

    pub fn find(&self, key: RequestKey) -> (found: Option<usize>)
        requires
            distinct(self@),
        ensures
            found is Some == known(self@, key),
            found matches Some(i) ==> i < self@.len() && i == place(self@, key)
                && self@[i as int].key == key,
    {
        let mut i: usize = 0;
        while i < self.entries.len()
            invariant
                i <= self.entries@.len(),
                distinct(self@),
                self@ == self.entries@,
                forall|k: int| 0 <= k < i ==> (#[trigger] self.entries@[k]).key != key,
            decreases self.entries@.len() - i,
        {
            if self.entries[i].key == key {
                proof {
                    assert(self@[i as int].key == key);
                    let p = place(self@, key);
                    if p < i {
                        assert(self@[p].key != self@[i as int].key);
                    } else if p > i {
                        assert(self@[i as int].key != self@[p].key);
                    }
                }
                return Some(i);
            }
            i += 1;
        }
        None
    }

    pub fn entry(&self, i: usize) -> (entry: &OperationPending)
        requires
            i < self@.len(),
        ensures
            *entry == self@[i as int],
    {
        &self.entries[i]
    }

    pub fn insert(&mut self, entry: OperationPending)
        requires
            distinct(old(self)@),
            !known(old(self)@, entry.key),
        ensures
            final(self)@ == old(self)@.push(entry),
            distinct(final(self)@),
    {
        self.entries.push(entry);
        assert forall|i: int, j: int| 0 <= i < j < self@.len() implies (#[trigger] self@[i]).key
            != (#[trigger] self@[j]).key by {
            if j == old(self)@.len() {
                assert(old(self)@[i].key != entry.key);
            }
        }
    }

    /// Takes an operation out of the table.
    pub fn remove(&mut self, key: RequestKey) -> (entry: Option<OperationPending>)
        requires
            distinct(old(self)@),
        ensures
            entry == if known(old(self)@, key) {
                Some(old(self)@[place(old(self)@, key)])
            } else {
                None::<OperationPending>
            },
            final(self)@ == if known(old(self)@, key) {
                old(self)@.remove(place(old(self)@, key))
            } else {
                old(self)@
            },
            distinct(final(self)@),
    {
        match self.find(key) {
            Some(i) => Some(self.entries.remove(i)),
            None => None,
        }
    }

    /// Ends an operation.
    pub fn complete_operation(&mut self, key: RequestKey, outcome: OperationOutcome) -> (delivery:
        Option<Delivery>)
        requires
            distinct(old(self)@),
        ensures
            (final(self)@, delivery) == ended(old(self)@, key, outcome),
            distinct(final(self)@),
    {
        let i: usize = match self.find(key) {
            Some(i) => i,
            None => {
                return None;
            },
        };
        let attached = match outcome {
            OperationOutcome::Response { request_raw } => OperationOutcome::Response {
                request_raw: request_raw || self.entries[i].request_raw,
            },
            OperationOutcome::Failed(error) => OperationOutcome::Failed(error),
        };
        if self.entries[i].waiter {
            let _ = self.entries.remove(i);
            Some(Delivery { key, outcome: attached })
        } else {
            let mut entry = self.entries.remove(i);
            entry.buffered = Some(attached);
            match outcome {
                OperationOutcome::Response { request_raw: false } => {
                    entry.request_raw = false;
                },
                _ => {},
            }
            self.entries.insert(i, entry);
            assert(self@ =~= old(self)@.update(i as int, entry));
            None
        }
    }

    fn drain(&mut self, key: RequestKey)
        requires
            distinct(old(self)@),
        ensures
            final(self)@ == drained(old(self)@, key),
            distinct(final(self)@),
    {
        if let Some(i) = self.find(key) {
            let mut entry = self.entries.remove(i);
            entry.draining = true;
            entry.request_raw = false;
            self.entries.insert(i, entry);
            assert(self@ =~= old(self)@.update(i as int, entry));
        }
    }

    fn tell(&mut self, key: RequestKey, outcome: TerminalOutcome) -> (delivery: Option<Delivery>)
        requires
            distinct(old(self)@),
        ensures
            (final(self)@, delivery) == told_outcome(old(self)@, key, outcome),
            distinct(final(self)@),
    {
        let failed = OperationOutcome::Failed(RuntimeError::Terminal(outcome));
        if let Some(i) = self.find(key) {
            if self.entries[i].draining {
                let mut entry = self.entries.remove(i);
                let waiter = entry.waiter;
                if waiter {
                    entry.waiter = false;
                    entry.caller_completed = true;
                } else {
                    entry.buffered = Some(failed);
                }
                self.entries.insert(i, entry);
                assert(self@ =~= old(self)@.update(i as int, entry));
                return if waiter {
                    Some(Delivery { key, outcome: failed })
                } else {
                    None
                };
            }
        }
        self.complete_operation(key, failed)
    }

    /// Applies the effects of one event to the operations they concern.
    pub fn apply_operation_effects(&mut self, effects: &Vec<OwnerEffect>) -> (deliveries: Vec<
        Delivery,
    >)
        requires
            distinct(old(self)@),
        ensures
            (final(self)@, deliveries@) == effects_applied(old(self)@, effects@),
            distinct(final(self)@),
    {
        let mut i: usize = 0;
        assert(effects@.take(0) =~= Seq::<OwnerEffect>::empty());
        while i < effects.len()
            invariant
                i <= effects@.len(),
                distinct(self@),
                self@ == wire_cancels_applied(old(self)@, effects@.take(i as int)),
            decreases effects@.len() - i,
        {
            proof {
                assert(effects@.take(i + 1).drop_last() =~= effects@.take(i as int));
            }
            if let OwnerEffect::BestEffortWireCancel(key) = effects[i] {
                self.drain(key);
            }
            i += 1;
        }
        assert(effects@.take(i as int) =~= effects@);
        let ghost drained_entries = self@;
        let mut deliveries: Vec<Delivery> = Vec::new();
        let mut j: usize = 0;
        while j < effects.len()
            invariant
                j <= effects@.len(),
                distinct(self@),
                (self@, deliveries@) == outcomes_applied(drained_entries, effects@.take(j as int)),
            decreases effects@.len() - j,
        {
            proof {
                assert(effects@.take(j + 1).drop_last() =~= effects@.take(j as int));
            }
            if let OwnerEffect::Request { key, effect: ReduceEffect::Publish(outcome) } = effects[j] {
                if outcome != TerminalOutcome::Response {
                    if let Some(delivery) = self.tell(key, outcome) {
                        deliveries.push(delivery);
                    }
                }
            }
            j += 1;
        }
        assert(effects@.take(j as int) =~= effects@);
        deliveries
    }

    /// Somebody asks for the result of an operation.
    pub fn await_operation(&mut self, key: RequestKey) -> (decision: AwaitDecision)
        requires
            distinct(old(self)@),
        ensures
            (final(self)@, decision) == asked(old(self)@, key),
            distinct(final(self)@),
    {
        let i: usize = match self.find(key) {
            Some(i) => i,
            None => {
                return AwaitDecision::Refused(RuntimeError::UnknownRequest(key));
            },
        };
        match self.entries[i].buffered {
            Some(outcome) => {
                let mut entry = self.entries.remove(i);
                if entry.draining {
                    entry.buffered = None;
                    entry.caller_completed = true;
                    self.entries.insert(i, entry);
                    assert(self@ =~= old(self)@.update(i as int, entry));
                }
                AwaitDecision::Ready(outcome)
            },
            None => {
                if self.entries[i].waiter || self.entries[i].caller_completed {
                    return AwaitDecision::Refused(RuntimeError::AlreadyAwaited(key));
                }
                let mut entry = self.entries.remove(i);
                entry.waiter = true;
                self.entries.insert(i, entry);
                assert(self@ =~= old(self)@.update(i as int, entry));
                AwaitDecision::Parked
            },
        }
    }

    /// The operations that somebody waits for, in order; none is left
    /// afterwards.
    pub fn drain_waiters(&mut self) -> (keys: Vec<RequestKey>)
        ensures
            keys@ == old(self)@.filter(|entry: OperationPending| entry.waiter).map_values(
                |entry: OperationPending| entry.key,
            ),
            final(self)@ == Seq::<OperationPending>::empty(),
            distinct(final(self)@),
    {
        let ghost waiting = |entry: OperationPending| entry.waiter;
        let ghost name = |entry: OperationPending| entry.key;
        let ghost entries = self@;
        let mut keys: Vec<RequestKey> = Vec::new();
        let mut i: usize = 0;
        proof {
            reveal(Seq::filter);
            assert(keys@ =~= entries.take(0).filter(waiting).map_values(name));
        }
        while i < self.entries.len()
            invariant
                i <= entries.len(),
                self.entries@ == entries,
                waiting == (|entry: OperationPending| entry.waiter),
                name == (|entry: OperationPending| entry.key),
                keys@ == entries.take(i as int).filter(waiting).map_values(name),
            decreases entries.len() - i,
        {
            proof {
                reveal(Seq::filter);
                assert(entries.take(i + 1).drop_last() =~= entries.take(i as int));
                assert(entries.take(i + 1).last() == entries[i as int]);
            }
            if self.entries[i].waiter {
                keys.push(self.entries[i].key);
            }
            i += 1;
            proof {
                assert(keys@ =~= entries.take(i as int).filter(waiting).map_values(name));
            }
        }
        proof {
            assert(entries.take(i as int) =~= entries);
        }
        self.entries = Vec::new();
        keys
    }

    /// Retains the raw bytes of a request, where there are any and its caller
    /// wants them back. Says whether they are retained.
    pub fn retain_raw(&mut self, key: RequestKey, available: bool) -> (retained: Option<bool>)
        requires
            distinct(old(self)@),
        ensures
            retained == if known(old(self)@, key) {
                Some(available && old(self)@[place(old(self)@, key)].wants_raw)
            } else {
                None::<bool>
            },
            final(self)@ == match retained {
                Some(request_raw) => old(self)@.update(
                    place(old(self)@, key),
                    OperationPending { request_raw, ..old(self)@[place(old(self)@, key)] },
                ),
                None => old(self)@,
            },
            distinct(final(self)@),
    {
        match self.find(key) {
            Some(i) => {
                let mut entry = self.entries.remove(i);
                let request_raw = available && entry.wants_raw;
                entry.request_raw = request_raw;
                self.entries.insert(i, entry);
                assert(self@ =~= old(self)@.update(i as int, entry));
                Some(request_raw)
            },
            None => None,
        }
    }
}

/// Whether every operation of `after` was in `before`.
pub open spec fn within(before: Seq<OperationPending>, after: Seq<OperationPending>) -> bool {
    forall|i: int| 0 <= i < after.len() ==> known(before, (#[trigger] after[i]).key)
}

proof fn removal_is_within(entries: Seq<OperationPending>, i: int)
    requires
        0 <= i < entries.len(),
    ensures
        within(entries, entries.remove(i)),
{
    let left = entries.remove(i);
    assert forall|k: int| 0 <= k < left.len() implies known(
        entries,
        (#[trigger] left[k]).key,
    ) by {
        let j = if k < i {
            k
        } else {
            k + 1
        };
        assert(entries[j].key == left[k].key);
    }
}

proof fn update_is_within(entries: Seq<OperationPending>, i: int, entry: OperationPending)
    requires
        0 <= i < entries.len(),
        entry.key == entries[i].key,
    ensures
        within(entries, entries.update(i, entry)),
{
    let changed = entries.update(i, entry);
    assert forall|k: int| 0 <= k < changed.len() implies known(
        entries,
        (#[trigger] changed[k]).key,
    ) by {
        assert(entries[k].key == changed[k].key);
    }
}

proof fn within_is_transitive(
    a: Seq<OperationPending>,
    b: Seq<OperationPending>,
    c: Seq<OperationPending>,
)
    requires
        within(a, b),
        within(b, c),
    ensures
        within(a, c),
{
    assert forall|k: int| 0 <= k < c.len() implies known(a, (#[trigger] c[k]).key) by {
        let j = place(b, c[k].key);
        assert(b[j].key == c[k].key);
        assert(known(a, b[j].key));
    }
}

proof fn all_are_within(entries: Seq<OperationPending>)
    ensures
        within(entries, entries),
{
    assert forall|k: int| 0 <= k < entries.len() implies known(
        entries,
        (#[trigger] entries[k]).key,
    ) by {}
}

/// Ending an operation brings no new one.
pub proof fn ending_is_within(
    entries: Seq<OperationPending>,
    key: RequestKey,
    outcome: OperationOutcome,
)
    ensures
        within(entries, ended(entries, key, outcome).0),
{
    all_are_within(entries);
    if known(entries, key) {
        let i = place(entries, key);
        removal_is_within(entries, i);
        update_is_within(
            entries,
            i,
            OperationPending {
                buffered: Some(with_raw(outcome, entries[i])),
                request_raw: entries[i].request_raw && (outcome is Failed || outcome == (
                OperationOutcome::Response { request_raw: true })),
                ..entries[i]
            },
        );
    }
}

proof fn draining_is_within(entries: Seq<OperationPending>, effects: Seq<OwnerEffect>)
    ensures
        within(entries, wire_cancels_applied(entries, effects)),
    decreases effects.len(),
{
    all_are_within(entries);
    if effects.len() > 0 {
        draining_is_within(entries, effects.drop_last());
        let earlier = wire_cancels_applied(entries, effects.drop_last());
        match effects.last() {
            OwnerEffect::BestEffortWireCancel(key) => if known(earlier, key) {
                let i = place(earlier, key);
                update_is_within(
                    earlier,
                    i,
                    OperationPending { draining: true, request_raw: false, ..earlier[i] },
                );
                within_is_transitive(entries, earlier, drained(earlier, key));
            },
            _ => {},
        }
    }
}

proof fn outcomes_are_within(entries: Seq<OperationPending>, effects: Seq<OwnerEffect>)
    ensures
        within(entries, outcomes_applied(entries, effects).0),
    decreases effects.len(),
{
    all_are_within(entries);
    if effects.len() > 0 {
        outcomes_are_within(entries, effects.drop_last());
        let earlier = outcomes_applied(entries, effects.drop_last()).0;
        match effects.last() {
            OwnerEffect::Request { key, effect: ReduceEffect::Publish(outcome) } => {
                if outcome != TerminalOutcome::Response {
                    let failed = OperationOutcome::Failed(RuntimeError::Terminal(outcome));
                    let next = told_outcome(earlier, key, outcome).0;
                    if known(earlier, key) && earlier[place(earlier, key)].draining {
                        let i = place(earlier, key);
                        update_is_within(
                            earlier,
                            i,
                            OperationPending {
                                waiter: false,
                                caller_completed: true,
                                ..earlier[i]
                            },
                        );
                        update_is_within(
                            earlier,
                            i,
                            OperationPending { buffered: Some(failed), ..earlier[i] },
                        );
                    } else {
                        ending_is_within(earlier, key, failed);
                    }
                    within_is_transitive(entries, earlier, next);
                }
            },
            _ => {},
        }
    }
}

/// Applying effects brings no new operation.
pub proof fn effects_are_within(entries: Seq<OperationPending>, effects: Seq<OwnerEffect>)
    ensures
        within(entries, effects_applied(entries, effects).0),
{
    draining_is_within(entries, effects);
    let middle = wire_cancels_applied(entries, effects);
    outcomes_are_within(middle, effects);
    within_is_transitive(entries, middle, effects_applied(entries, effects).0);
}

/// Asking for a result brings no new operation.
pub proof fn asking_is_within(entries: Seq<OperationPending>, key: RequestKey)
    ensures
        within(entries, asked(entries, key).0),
{
    all_are_within(entries);
    if known(entries, key) {
        let i = place(entries, key);
        removal_is_within(entries, i);
        update_is_within(
            entries,
            i,
            OperationPending { buffered: None, caller_completed: true, ..entries[i] },
        );
        update_is_within(entries, i, OperationPending { waiter: true, ..entries[i] });
    }
}

/// Taking an operation out brings no new one.
pub proof fn removing_is_within(entries: Seq<OperationPending>, key: RequestKey)
    ensures
        known(entries, key) ==> within(entries, entries.remove(place(entries, key))),
{
    if known(entries, key) {
        removal_is_within(entries, place(entries, key));
    }
}

} // verus!
