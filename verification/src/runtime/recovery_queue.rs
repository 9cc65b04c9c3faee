//! Operations held while an object that they depend on is recovering.

use crate::clock::MonotonicTime;
use crate::runtime::object_state::{descends, ObjectEffect, ObjectRegistry, ObjectToken, RegistryModel};
use crate::runtime::wait_list::{
    expired, ids_of, outcomes_of, Wait, WaitList, WaitListError, WaitListModel,
};
use vstd::prelude::*;

verus! {

#[derive(Clone, Copy, Debug, PartialEq, Eq, Hash, Structural)]
pub struct RecoveryWaitId(pub u64);

#[derive(Clone, Copy, Debug, PartialEq, Eq, Structural)]
pub enum RecoveryQueueError {
    Full,
    IdExhausted,
}

#[derive(Clone, Copy, Debug, PartialEq, Eq, Structural)]
pub enum RecoveryWaitOutcome {
    Ready(RecoveryWaitId),
    Cancelled(RecoveryWaitId),
    TimedOut(RecoveryWaitId),
    AncestorFailed(RecoveryWaitId),
}

impl RecoveryWaitOutcome {
    pub open spec fn wait_id(self) -> RecoveryWaitId {
        match self {
            RecoveryWaitOutcome::Ready(id) => id,
            RecoveryWaitOutcome::Cancelled(id) => id,
            RecoveryWaitOutcome::TimedOut(id) => id,
            RecoveryWaitOutcome::AncestorFailed(id) => id,
        }
    }

    /// The wait that an outcome settles.
    pub fn id(self) -> (id: RecoveryWaitId)
        ensures
            id == self.wait_id(),
    {
        match self {
            RecoveryWaitOutcome::Ready(id) => id,
            RecoveryWaitOutcome::Cancelled(id) => id,
            RecoveryWaitOutcome::TimedOut(id) => id,
            RecoveryWaitOutcome::AncestorFailed(id) => id,
        }
    }
}

/// Whether a wait depends on `ancestor` or on something below it.
pub open spec fn hangs_on(registry: RegistryModel, wait: Wait, ancestor: ObjectToken) -> bool {
    wait.dependency == ancestor || descends(registry.records, wait.dependency.id as int, ancestor)
}

/// Bounded FIFO for operations held while an object dependency is recovering.
pub struct RecoveryQueue {
    list: WaitList,
}

impl View for RecoveryQueue {
    type V = WaitListModel;

    closed spec fn view(&self) -> WaitListModel {
        self.list@
    }
}

impl RecoveryQueue {
    pub fn new(capacity: usize) -> (queue: Self)
        ensures
            queue@ == WaitListModel::empty(capacity),
            queue@.wf(),
    {
        RecoveryQueue { list: WaitList::new(capacity) }
    }

    pub fn enqueue(&mut self, dependency: ObjectToken, deadline: Option<MonotonicTime>) -> (id:
        Result<RecoveryWaitId, RecoveryQueueError>)
        requires
            old(self)@.wf(),
        ensures
            final(self)@ == old(self)@.enqueued(dependency, deadline).0,
            id == match old(self)@.enqueued(dependency, deadline).1 {
                Ok(id) => Ok::<RecoveryWaitId, RecoveryQueueError>(RecoveryWaitId(id)),
                Err(WaitListError::Full) => Err(RecoveryQueueError::Full),
                Err(WaitListError::IdExhausted) => Err(RecoveryQueueError::IdExhausted),
            },
            final(self)@.wf(),
    {
        match self.list.enqueue(dependency, deadline) {
            Ok(id) => Ok(RecoveryWaitId(id)),
            Err(WaitListError::Full) => Err(RecoveryQueueError::Full),
            Err(WaitListError::IdExhausted) => Err(RecoveryQueueError::IdExhausted),
        }
    }

    pub fn cancel(&mut self, id: RecoveryWaitId) -> (outcome: Option<RecoveryWaitOutcome>)
        requires
            old(self)@.wf(),
        ensures
            outcome == if old(self)@.holds(id.0) {
                Some(RecoveryWaitOutcome::Cancelled(id))
            } else {
                None::<RecoveryWaitOutcome>
            },
            final(self)@ == old(self)@.without(|wait: Wait| wait.id == id.0),
            final(self)@.wf(),
    {
        if self.list.remove(id.0) {
            Some(RecoveryWaitOutcome::Cancelled(id))
        } else {
            None
        }
    }

    pub fn advance_time(&mut self, now: MonotonicTime) -> (outcomes: Vec<RecoveryWaitOutcome>)
        requires
            old(self)@.wf(),
        ensures
            outcomes@ == ids_of(
                old(self)@.waits,
                |wait: Wait| expired(wait, now),
            ).map_values(|id: u64| RecoveryWaitOutcome::TimedOut(RecoveryWaitId(id))),
            final(self)@ == old(self)@.without(|wait: Wait| expired(wait, now)),
            final(self)@.wf(),
    {
        let ids = self.list.take_expired(now);
        let outcome = |id: u64| -> (o: RecoveryWaitOutcome)
            ensures
                o == RecoveryWaitOutcome::TimedOut(RecoveryWaitId(id)),
        {
            RecoveryWaitOutcome::TimedOut(RecoveryWaitId(id))
        };
        let outcomes = outcomes_of(&ids, outcome);
        assert(outcomes@ =~= ids@.map_values(
            |id: u64| RecoveryWaitOutcome::TimedOut(RecoveryWaitId(id)),
        ));
        outcomes
    }

    /// Releases the waits whose dependency is active again.
    pub fn release_ready(&mut self, registry: &ObjectRegistry) -> (outcomes: Vec<
        RecoveryWaitOutcome,
    >)
        requires
            old(self)@.wf(),
            registry@.wf(),
        ensures
            outcomes@ == ids_of(
                old(self)@.waits,
                |wait: Wait| registry@.validated(wait.dependency) is Ok,
            ).map_values(|id: u64| RecoveryWaitOutcome::Ready(RecoveryWaitId(id))),
            final(self)@ == old(self)@.without(
                |wait: Wait| registry@.validated(wait.dependency) is Ok,
            ),
            final(self)@.wf(),
    {
        let mut chosen: Vec<bool> = Vec::new();
        let mut i: usize = 0;
        while i < self.list.len()
            invariant
                i <= self@.waits.len(),
                self@ == old(self)@,
                self@ == self.list@,
                registry@.wf(),
                chosen@.len() == i,
                forall|k: int|
                    0 <= k < i ==> #[trigger] chosen@[k] == (registry@.validated(
                        self@.waits[k].dependency,
                    ) is Ok),
            decreases self@.waits.len() - i,
        {
            let wait = self.list.wait(i);
            chosen.push(registry.validate_active(wait.dependency).is_ok());
            i += 1;
        }
        let ids = self.list.take(
            &chosen,
            Ghost(|wait: Wait| registry@.validated(wait.dependency) is Ok),
        );
        self.ready(ids)
    }

    /// Releases the waits for one dependency that is known to be active.
    pub fn release_dependency(&mut self, dependency: ObjectToken) -> (outcomes: Vec<
        RecoveryWaitOutcome,
    >)
        requires
            old(self)@.wf(),
        ensures
            outcomes@ == ids_of(
                old(self)@.waits,
                |wait: Wait| wait.dependency == dependency,
            ).map_values(|id: u64| RecoveryWaitOutcome::Ready(RecoveryWaitId(id))),
            final(self)@ == old(self)@.without(|wait: Wait| wait.dependency == dependency),
            final(self)@.wf(),
    {
        let ids = self.list.take_dependents(dependency);
        self.ready(ids)
    }

    fn ready(&self, ids: Vec<u64>) -> (outcomes: Vec<RecoveryWaitOutcome>)
        ensures
            outcomes@ == ids@.map_values(
                |id: u64| RecoveryWaitOutcome::Ready(RecoveryWaitId(id)),
            ),
    {
        let outcome = |id: u64| -> (o: RecoveryWaitOutcome)
            ensures
                o == RecoveryWaitOutcome::Ready(RecoveryWaitId(id)),
        {
            RecoveryWaitOutcome::Ready(RecoveryWaitId(id))
        };
        let outcomes = outcomes_of(&ids, outcome);
        assert(outcomes@ =~= ids@.map_values(
            |id: u64| RecoveryWaitOutcome::Ready(RecoveryWaitId(id)),
        ));
        outcomes
    }

    fn failed(&self, ids: Vec<u64>) -> (outcomes: Vec<RecoveryWaitOutcome>)
        ensures
            outcomes@ == ids@.map_values(
                |id: u64| RecoveryWaitOutcome::AncestorFailed(RecoveryWaitId(id)),
            ),
    {
        let outcome = |id: u64| -> (o: RecoveryWaitOutcome)
            ensures
                o == RecoveryWaitOutcome::AncestorFailed(RecoveryWaitId(id)),
        {
            RecoveryWaitOutcome::AncestorFailed(RecoveryWaitId(id))
        };
        let outcomes = outcomes_of(&ids, outcome);
        assert(outcomes@ =~= ids@.map_values(
            |id: u64| RecoveryWaitOutcome::AncestorFailed(RecoveryWaitId(id)),
        ));
        outcomes
    }

    /// Lets the waits for a replaced object wait for its replacement.
    pub fn publish_replacement(&mut self, effect: ObjectEffect)
        requires
            old(self)@.wf(),
        ensures
            final(self)@ == match effect {
                ObjectEffect::ReplacementPublished { previous, replacement } => WaitListModel {
                    waits: old(self)@.waits.map_values(
                        |wait: Wait|
                            if wait.dependency == previous {
                                Wait { dependency: replacement, ..wait }
                            } else {
                                wait
                            },
                    ),
                    ..old(self)@
                },
                ObjectEffect::Revoked(_) => old(self)@,
            },
            final(self)@.wf(),
    {
        match effect {
            ObjectEffect::ReplacementPublished { previous, replacement } => {
                self.list.rename(previous, replacement);
            },
            ObjectEffect::Revoked(_) => {},
        }
    }

    /// Fails the waits that depend on `ancestor` or on something below it.
    pub fn drain_ancestor(&mut self, registry: &ObjectRegistry, ancestor: ObjectToken) -> (outcomes:
        Vec<RecoveryWaitOutcome>)
        requires
            old(self)@.wf(),
            registry@.wf(),
        ensures
            outcomes@ == ids_of(
                old(self)@.waits,
                |wait: Wait| hangs_on(registry@, wait, ancestor),
            ).map_values(|id: u64| RecoveryWaitOutcome::AncestorFailed(RecoveryWaitId(id))),
            final(self)@ == old(self)@.without(|wait: Wait| hangs_on(registry@, wait, ancestor)),
            final(self)@.wf(),
    {
        let mut chosen: Vec<bool> = Vec::new();
        let mut i: usize = 0;
        while i < self.list.len()
            invariant
                i <= self@.waits.len(),
                self@ == old(self)@,
                self@ == self.list@,
                registry@.wf(),
                chosen@.len() == i,
                forall|k: int|
                    0 <= k < i ==> #[trigger] chosen@[k] == hangs_on(
                        registry@,
                        self@.waits[k],
                        ancestor,
                    ),
            decreases self@.waits.len() - i,
        {
            let wait = self.list.wait(i);
            chosen.push(
                wait.dependency == ancestor || registry.is_descendant(wait.dependency, ancestor),
            );
            i += 1;
        }
        let ids = self.list.take(
            &chosen,
            Ghost(|wait: Wait| hangs_on(registry@, wait, ancestor)),
        );
        self.failed(ids)
    }

    /// Fails every wait.
    pub fn fail_all(&mut self) -> (outcomes: Vec<RecoveryWaitOutcome>)
        requires
            old(self)@.wf(),
        ensures
            outcomes@ == old(self)@.waits.map_values(|wait: Wait| wait.id).map_values(
                |id: u64| RecoveryWaitOutcome::AncestorFailed(RecoveryWaitId(id)),
            ),
            final(self)@ == (WaitListModel { waits: Seq::empty(), ..old(self)@ }),
            final(self)@.wf(),
    {
        let ids = self.list.take_all();
        self.failed(ids)
    }
}

/// A wait hangs on what it waits for and on everything above that, and on
/// nothing else.
pub proof fn waits_hang_on_what_is_above(
    registry: RegistryModel,
    wait: Wait,
    ancestor: ObjectToken,
)
    requires
        registry.wf(),
        registry.lookup(wait.dependency) is Ok,
    ensures
        wait.dependency == ancestor ==> hangs_on(registry, wait, ancestor),
        registry.records[wait.dependency.id as int].parent == Some(ancestor) ==> hangs_on(
            registry,
            wait,
            ancestor,
        ),
        hangs_on(registry, wait, registry.records[0].token),
        hangs_on(registry, wait, ancestor) && wait.dependency != ancestor ==> ancestor.id
            < wait.dependency.id && registry.lookup(ancestor) is Ok,
{
    let id = wait.dependency.id as int;
    crate::runtime::object_state::the_tree_has_one_root(registry, id);
    if descends(registry.records, id, ancestor) {
        crate::runtime::object_state::descendants_come_later(registry, id, ancestor);
    }
    assert(registry.record_ok(id));
}

/// Whatever a wait is told, it is named by its own id.
pub proof fn outcomes_name_their_wait(id: RecoveryWaitId)
    ensures
        RecoveryWaitOutcome::Ready(id).wait_id() == id,
        RecoveryWaitOutcome::Cancelled(id).wait_id() == id,
        RecoveryWaitOutcome::TimedOut(id).wait_id() == id,
        RecoveryWaitOutcome::AncestorFailed(id).wait_id() == id,
{
}

} // verus!
