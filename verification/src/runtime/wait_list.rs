//! Bounded first-in-first-out waits for an object dependency.
//!
//! A list stores only opaque wait identities and dependency facts. Waits leave
//! it in the order in which they came, each at most once.

use crate::clock::MonotonicTime;
use crate::runtime::object_state::ObjectToken;
use std::collections::VecDeque;
use vstd::prelude::*;

verus! {

#[derive(Clone, Copy, Debug, PartialEq, Eq, Structural)]
pub struct Wait {
    pub id: u64,
    pub dependency: ObjectToken,
    pub deadline: Option<MonotonicTime>,
}

#[derive(Clone, Copy, Debug, PartialEq, Eq, Structural)]
pub enum WaitListError {
    Full,
    IdExhausted,
}

#[verifier::ext_equal]
pub struct WaitListModel {
    pub capacity: usize,
    pub next_id: Option<u64>,
    /// Oldest first.
    pub waits: Seq<Wait>,
}

/// Whether the deadline of a wait has come.
pub open spec fn expired(wait: Wait, now: MonotonicTime) -> bool {
    wait.deadline matches Some(deadline) && deadline@ <= now@
}

/// The ids of the selected waits, oldest first.
pub open spec fn ids_of(waits: Seq<Wait>, select: spec_fn(Wait) -> bool) -> Seq<u64> {
    waits.filter(select).map_values(|wait: Wait| wait.id)
}

/// The waits that are not selected, oldest first.
pub open spec fn others(waits: Seq<Wait>, select: spec_fn(Wait) -> bool) -> Seq<Wait> {
    waits.filter(|wait: Wait| !select(wait))
}

impl WaitListModel {
    pub open spec fn empty(capacity: usize) -> WaitListModel {
        WaitListModel { capacity, next_id: Some(0), waits: Seq::empty() }
    }

    /// The list is within its bound, and ids tell the order of arrival.
    pub open spec fn wf(self) -> bool {
        &&& self.waits.len() <= self.capacity
        &&& forall|i: int, j: int|
            0 <= i < j < self.waits.len() ==> (#[trigger] self.waits[i]).id < (
            #[trigger] self.waits[j]).id
        &&& self.next_id matches Some(next) ==> forall|i: int|
            0 <= i < self.waits.len() ==> (#[trigger] self.waits[i]).id < next
    }

    pub open spec fn enqueued(self, dependency: ObjectToken, deadline: Option<MonotonicTime>) -> (
        WaitListModel,
        Result<u64, WaitListError>,
    ) {
        if self.waits.len() >= self.capacity {
            (self, Err(WaitListError::Full))
        } else {
            match self.next_id {
                None => (self, Err(WaitListError::IdExhausted)),
                Some(id) => (
                    WaitListModel {
                        next_id: if id < u64::MAX {
                            Some((id + 1) as u64)
                        } else {
                            None
                        },
                        waits: self.waits.push(Wait { id, dependency, deadline }),
                        ..self
                    },
                    Ok(id),
                ),
            }
        }
    }

    pub open spec fn holds(self, id: u64) -> bool {
        exists|i: int| 0 <= i < self.waits.len() && (#[trigger] self.waits[i]).id == id
    }

    /// The list without the waits that `select` picks.
    pub open spec fn without(self, select: spec_fn(Wait) -> bool) -> WaitListModel {
        WaitListModel { waits: others(self.waits, select), ..self }
    }
}

proof fn filter_keeps_order(waits: Seq<Wait>, select: spec_fn(Wait) -> bool, bound: int)
    requires
        forall|i: int, j: int|
            0 <= i < j < waits.len() ==> (#[trigger] waits[i]).id < (#[trigger] waits[j]).id,
        forall|i: int| 0 <= i < waits.len() ==> (#[trigger] waits[i]).id < bound,
    ensures
        waits.filter(select).len() <= waits.len(),
        forall|i: int, j: int|
            0 <= i < j < waits.filter(select).len() ==> (#[trigger] waits.filter(select)[i]).id < (
            #[trigger] waits.filter(select)[j]).id,
        forall|i: int|
            0 <= i < waits.filter(select).len() ==> (#[trigger] waits.filter(select)[i]).id < bound,
    decreases waits.len(),
{
    reveal(Seq::filter);
    if waits.len() > 0 {
        let rest = waits.drop_last();
        assert forall|i: int| 0 <= i < rest.len() implies (#[trigger] rest[i]).id
            < waits.last().id by {
            assert(rest[i] == waits[i]);
        }
        filter_keeps_order(rest, select, waits.last().id as int);
        filter_keeps_order(rest, select, bound);
    }
}

/// Taking waits out keeps a list well-formed, and the ids that come out come
/// in the order of arrival.
pub proof fn taking_keeps_order(model: WaitListModel, select: spec_fn(Wait) -> bool)
    requires
        model.wf(),
    ensures
        model.without(select).wf(),
        forall|i: int, j: int|
            0 <= i < j < ids_of(model.waits, select).len() ==> (#[trigger] ids_of(
                model.waits,
                select,
            )[i]) < (#[trigger] ids_of(model.waits, select)[j]),
{
    let bound = match model.next_id {
        Some(next) => next as int,
        None => u64::MAX + 1,
    };
    filter_keeps_order(model.waits, |wait: Wait| !select(wait), bound);
    filter_keeps_order(model.waits, select, bound);
}

pub struct WaitList {
    capacity: usize,
    next_id: Option<u64>,
    waits: VecDeque<Wait>,
}

impl View for WaitList {
    type V = WaitListModel;

    closed spec fn view(&self) -> WaitListModel {
        WaitListModel { capacity: self.capacity, next_id: self.next_id, waits: self.waits@ }
    }
}

impl WaitList {
    pub fn new(capacity: usize) -> (list: Self)
        ensures
            list@ == WaitListModel::empty(capacity),
            list@.wf(),
    {
        WaitList { capacity, next_id: Some(0), waits: VecDeque::new() }
    }

    pub fn len(&self) -> (len: usize)
        ensures
            len == self@.waits.len(),
    {
        self.waits.len()
    }

    pub fn enqueue(&mut self, dependency: ObjectToken, deadline: Option<MonotonicTime>) -> (id:
        Result<u64, WaitListError>)
        requires
            old(self)@.wf(),
        ensures
            (final(self)@, id) == old(self)@.enqueued(dependency, deadline),
            final(self)@.wf(),
    {
        if self.waits.len() >= self.capacity {
            return Err(WaitListError::Full);
        }
        let id: u64 = match self.next_id {
            Some(id) => id,
            None => {
                return Err(WaitListError::IdExhausted);
            },
        };
        self.next_id = id.checked_add(1);
        self.waits.push_back(Wait { id, dependency, deadline });
        Ok(id)
    }

    /// The wait at place `i`, oldest first.
    pub fn wait(&self, i: usize) -> (wait: Wait)
        requires
            i < self@.waits.len(),
        ensures
            wait == self@.waits[i as int],
    {
        self.waits[i]
    }

    /// Takes out the waits that `chosen` marks and returns their ids.
    pub(crate) fn take(
        &mut self,
        chosen: &Vec<bool>,
        Ghost(select): Ghost<spec_fn(Wait) -> bool>,
    ) -> (ids: Vec<u64>)
        requires
            old(self)@.wf(),
            chosen@.len() == old(self)@.waits.len(),
            forall|i: int|
                0 <= i < chosen@.len() ==> #[trigger] chosen@[i] == select(old(self)@.waits[i]),
        ensures
            ids@ == ids_of(old(self)@.waits, select),
            final(self)@ == old(self)@.without(select),
            final(self)@.wf(),
    {
        let ghost waits = self.waits@;
        let ghost rest = |wait: Wait| !select(wait);
        let mut ids: Vec<u64> = Vec::new();
        let mut kept: VecDeque<Wait> = VecDeque::new();
        let mut i: usize = 0;
        proof {
            reveal(Seq::filter);
            assert(waits.take(0) =~= Seq::<Wait>::empty());
        }
        while i < self.waits.len()
            invariant
                i <= waits.len(),
                self.waits@ == waits,
                chosen@.len() == waits.len(),
                forall|k: int| 0 <= k < chosen@.len() ==> #[trigger] chosen@[k] == select(waits[k]),
                rest == (|wait: Wait| !select(wait)),
                ids@ == ids_of(waits.take(i as int), select),
                kept@ == waits.take(i as int).filter(rest),
            decreases waits.len() - i,
        {
            let wait = self.waits[i];
            proof {
                reveal(Seq::filter);
                assert(waits.take(i + 1).drop_last() =~= waits.take(i as int));
                assert(waits.take(i + 1).last() == wait);
            }
            if chosen[i] {
                ids.push(wait.id);
            } else {
                kept.push_back(wait);
            }
            proof {
                assert(ids@ =~= ids_of(waits.take(i + 1), select));
            }
            i += 1;
        }
        proof {
            assert(waits.take(i as int) =~= waits);
            taking_keeps_order(self@, select);
        }
        self.waits = kept;
        ids
    }

    /// Takes out every wait whose deadline has come.
    pub fn take_expired(&mut self, now: MonotonicTime) -> (ids: Vec<u64>)
        requires
            old(self)@.wf(),
        ensures
            ids@ == ids_of(old(self)@.waits, |wait: Wait| expired(wait, now)),
            final(self)@ == old(self)@.without(|wait: Wait| expired(wait, now)),
            final(self)@.wf(),
    {
        let mut chosen: Vec<bool> = Vec::new();
        let mut i: usize = 0;
        while i < self.waits.len()
            invariant
                i <= self.waits@.len(),
                self@ == old(self)@,
                chosen@.len() == i,
                forall|k: int| 0 <= k < i ==> #[trigger] chosen@[k] == expired(self.waits@[k], now),
            decreases self.waits@.len() - i,
        {
            let due = match self.waits[i].deadline {
                Some(deadline) => deadline.at_or_before(now),
                None => false,
            };
            chosen.push(due);
            i += 1;
        }
        self.take(&chosen, Ghost(|wait: Wait| expired(wait, now)))
    }

    /// Takes out every wait for `dependency`.
    pub fn take_dependents(&mut self, dependency: ObjectToken) -> (ids: Vec<u64>)
        requires
            old(self)@.wf(),
        ensures
            ids@ == ids_of(old(self)@.waits, |wait: Wait| wait.dependency == dependency),
            final(self)@ == old(self)@.without(|wait: Wait| wait.dependency == dependency),
            final(self)@.wf(),
    {
        let mut chosen: Vec<bool> = Vec::new();
        let mut i: usize = 0;
        while i < self.waits.len()
            invariant
                i <= self.waits@.len(),
                self@ == old(self)@,
                chosen@.len() == i,
                forall|k: int|
                    0 <= k < i ==> #[trigger] chosen@[k] == (self.waits@[k].dependency
                        == dependency),
            decreases self.waits@.len() - i,
        {
            chosen.push(self.waits[i].dependency == dependency);
            i += 1;
        }
        self.take(&chosen, Ghost(|wait: Wait| wait.dependency == dependency))
    }

    /// Takes out every wait.
    pub fn take_all(&mut self) -> (ids: Vec<u64>)
        requires
            old(self)@.wf(),
        ensures
            ids@ == old(self)@.waits.map_values(|wait: Wait| wait.id),
            final(self)@ == (WaitListModel { waits: Seq::empty(), ..old(self)@ }),
            final(self)@.wf(),
    {
        let mut ids: Vec<u64> = Vec::new();
        let mut i: usize = 0;
        while i < self.waits.len()
            invariant
                i <= self.waits@.len(),
                self@ == old(self)@,
                ids@ == self.waits@.take(i as int).map_values(|wait: Wait| wait.id),
            decreases self.waits@.len() - i,
        {
            ids.push(self.waits[i].id);
            i += 1;
            proof {
                assert(ids@ =~= self.waits@.take(i as int).map_values(|wait: Wait| wait.id));
            }
        }
        proof {
            assert(self.waits@.take(i as int) =~= self.waits@);
        }
        self.waits = VecDeque::new();
        ids
    }

    /// Takes out the wait with id `id`, if it is still there.
    pub fn remove(&mut self, id: u64) -> (found: bool)
        requires
            old(self)@.wf(),
        ensures
            found == old(self)@.holds(id),
            final(self)@ == old(self)@.without(|wait: Wait| wait.id == id),
            final(self)@.wf(),
    {
        let mut chosen: Vec<bool> = Vec::new();
        let mut found = false;
        let mut i: usize = 0;
        while i < self.waits.len()
            invariant
                i <= self.waits@.len(),
                self@ == old(self)@,
                chosen@.len() == i,
                forall|k: int| 0 <= k < i ==> #[trigger] chosen@[k] == (self.waits@[k].id == id),
                found == exists|k: int| 0 <= k < i && (#[trigger] self.waits@[k]).id == id,
            decreases self.waits@.len() - i,
        {
            let hit = self.waits[i].id == id;
            found = found || hit;
            chosen.push(hit);
            i += 1;
        }
        let _ = self.take(&chosen, Ghost(|wait: Wait| wait.id == id));
        found
    }

    /// Lets every wait for `previous` wait for `replacement` instead.
    pub fn rename(&mut self, previous: ObjectToken, replacement: ObjectToken)
        requires
            old(self)@.wf(),
        ensures
            final(self)@ == (WaitListModel {
                waits: old(self)@.waits.map_values(
                    |wait: Wait|
                        if wait.dependency == previous {
                            Wait { dependency: replacement, ..wait }
                        } else {
                            wait
                        },
                ),
                ..old(self)@
            }),
            final(self)@.wf(),
    {
        let ghost waits = self.waits@;
        let ghost renamed = |wait: Wait|
            if wait.dependency == previous {
                Wait { dependency: replacement, ..wait }
            } else {
                wait
            };
        let mut next: VecDeque<Wait> = VecDeque::new();
        let mut i: usize = 0;
        while i < self.waits.len()
            invariant
                i <= waits.len(),
                self.waits@ == waits,
                next@ == waits.take(i as int).map_values(renamed),
                renamed == (|wait: Wait|
                    if wait.dependency == previous {
                        Wait { dependency: replacement, ..wait }
                    } else {
                        wait
                    }),
            decreases waits.len() - i,
        {
            let mut wait = self.waits[i];
            if wait.dependency == previous {
                wait.dependency = replacement;
            }
            next.push_back(wait);
            i += 1;
            proof {
                assert(next@ =~= waits.take(i as int).map_values(renamed));
            }
        }
        proof {
            assert(waits.take(i as int) =~= waits);
        }
        self.waits = next;
    }
}

/// One outcome for each id, in order.
pub(crate) fn outcomes_of<O>(ids: &Vec<u64>, outcome: impl Fn(u64) -> O) -> (outcomes: Vec<O>)
    requires
        forall|id: u64| call_requires(outcome, (id,)),
    ensures
        outcomes@.len() == ids@.len(),
        forall|i: int|
            0 <= i < ids@.len() ==> call_ensures(outcome, (ids@[i],), #[trigger] outcomes@[i]),
{
    let mut outcomes: Vec<O> = Vec::new();
    let mut i: usize = 0;
    while i < ids.len()
        invariant
            i <= ids@.len(),
            outcomes@.len() == i,
            forall|id: u64| call_requires(outcome, (id,)),
            forall|k: int|
                0 <= k < i ==> call_ensures(outcome, (ids@[k],), #[trigger] outcomes@[k]),
        decreases ids@.len() - i,
    {
        outcomes.push(outcome(ids[i]));
        i += 1;
    }
    outcomes
}

/// What is left after taking waits out was there before.
pub proof fn filtered_waits_are_waits(waits: Seq<Wait>, select: spec_fn(Wait) -> bool)
    ensures
        forall|i: int|
            0 <= i < others(waits, select).len() ==> waits.contains(
                #[trigger] others(waits, select)[i],
            ),
    decreases waits.len(),
{
    reveal(Seq::filter);
    if waits.len() > 0 {
        let rest = waits.drop_last();
        filtered_waits_are_waits(rest, select);
        assert forall|i: int| 0 <= i < others(waits, select).len() implies waits.contains(
            #[trigger] others(waits, select)[i],
        ) by {
            if i < others(rest, select).len() {
                let wait = others(rest, select)[i];
                assert(rest.contains(wait));
                let k = choose|k: int| 0 <= k < rest.len() && rest[k] == wait;
                assert(waits[k] == wait);
            } else {
                assert(waits[waits.len() - 1] == others(waits, select)[i]);
            }
        }
    }
}

/// Whoever comes waits behind everybody else, under an id that nobody had
/// before, until the deadline that was set. Nobody is turned away while there
/// is room and an id is left.
pub proof fn waits_queue_up(
    model: WaitListModel,
    dependency: ObjectToken,
    deadline: Option<MonotonicTime>,
)
    requires
        model.wf(),
    ensures
        ({
            let (next, id) = model.enqueued(dependency, deadline);
            let room = model.waits.len() < model.capacity;
            &&& id == Err::<u64, WaitListError>(WaitListError::Full) <==> !room
            &&& id == Err::<u64, WaitListError>(WaitListError::IdExhausted) <==> room
                && model.next_id is None
            &&& id is Err ==> next == model
            &&& id matches Ok(id) ==> {
                &&& next.waits.len() == model.waits.len() + 1
                &&& next.waits.drop_last() == model.waits
                &&& next.waits.last().id == id
                &&& next.waits.last().dependency == dependency
                &&& next.waits.last().deadline == deadline
                &&& next.capacity == model.capacity
                &&& model.next_id == Some(id)
                &&& next.next_id matches Some(later) ==> later == id + 1
                &&& next.next_id is None <==> id == u64::MAX
                &&& !model.holds(id)
                &&& next.holds(id)
            }
        }),
{
    let (next, id) = model.enqueued(dependency, deadline);
    if id is Ok {
        assert(next.waits.drop_last() =~= model.waits);
        assert(next.waits[next.waits.len() - 1].id == id->Ok_0);
    }
}

/// A wait is over once its deadline has come; one without a deadline never
/// is.
pub proof fn deadlines_end_waits(wait: Wait, now: MonotonicTime)
    ensures
        wait.deadline is None ==> !expired(wait, now),
        wait.deadline matches Some(deadline) ==> (expired(wait, now) <==> deadline@ <= now@),
{
}

/// Taking waits out parts a list in two: who is picked is told, everybody
/// else stays, and nobody is lost or told twice.
pub proof fn taking_parts_the_list(model: WaitListModel, select: spec_fn(Wait) -> bool)
    ensures
        forall|i: int|
            0 <= i < model.waits.len() && select(#[trigger] model.waits[i]) ==> ids_of(
                model.waits,
                select,
            ).contains(model.waits[i].id),
        forall|i: int|
            0 <= i < model.waits.len() && !select(#[trigger] model.waits[i]) ==> model.without(
                select,
            ).waits.contains(model.waits[i]),
        forall|wait: Wait| #[trigger]
            model.without(select).waits.contains(wait) ==> model.waits.contains(wait) && !select(
                wait,
            ),
        forall|id: u64| #[trigger]
            ids_of(model.waits, select).contains(id) ==> exists|i: int|
                0 <= i < model.waits.len() && select(model.waits[i]) && (
                #[trigger] model.waits[i]).id == id,
        ids_of(model.waits, select).len() + model.without(select).waits.len()
            == model.waits.len(),
        model.without(select).capacity == model.capacity,
        model.without(select).next_id == model.next_id,
{
    parted(model.waits, select);
}

proof fn parted(waits: Seq<Wait>, select: spec_fn(Wait) -> bool)
    ensures
        forall|i: int|
            0 <= i < waits.len() && select(#[trigger] waits[i]) ==> ids_of(
                waits,
                select,
            ).contains(waits[i].id),
        forall|i: int|
            0 <= i < waits.len() && !select(#[trigger] waits[i]) ==> others(
                waits,
                select,
            ).contains(waits[i]),
        forall|wait: Wait| #[trigger]
            others(waits, select).contains(wait) ==> waits.contains(wait) && !select(wait),
        forall|id: u64| #[trigger]
            ids_of(waits, select).contains(id) ==> exists|i: int|
                0 <= i < waits.len() && select(waits[i]) && (#[trigger] waits[i]).id == id,
        ids_of(waits, select).len() + others(waits, select).len() == waits.len(),
    decreases waits.len(),
{
    reveal(Seq::filter);
    if waits.len() > 0 {
        let rest = waits.drop_last();
        let last = waits.last();
        parted(rest, select);
        let ids = ids_of(waits, select);
        let left = others(waits, select);
        if select(last) {
            assert(ids =~= ids_of(rest, select).push(last.id));
            assert(left =~= others(rest, select));
            assert(ids[ids.len() - 1] == last.id);
        } else {
            assert(ids =~= ids_of(rest, select));
            assert(left =~= others(rest, select).push(last));
            assert(left[left.len() - 1] == last);
        }
        assert forall|i: int| 0 <= i < waits.len() && select(#[trigger] waits[i]) implies ids.contains(
            waits[i].id,
        ) by {
            if i < rest.len() {
                assert(rest[i] == waits[i]);
                let earlier = ids_of(rest, select);
                let k = choose|k: int| 0 <= k < earlier.len() && earlier[k] == waits[i].id;
                assert(ids[k] == waits[i].id);
            }
        }
        assert forall|i: int| 0 <= i < waits.len() && !select(#[trigger] waits[i]) implies left.contains(
            waits[i],
        ) by {
            if i < rest.len() {
                assert(rest[i] == waits[i]);
                let earlier = others(rest, select);
                let k = choose|k: int| 0 <= k < earlier.len() && earlier[k] == waits[i];
                assert(left[k] == waits[i]);
            }
        }
        assert forall|wait: Wait| #[trigger] left.contains(wait) implies waits.contains(wait)
            && !select(wait) by {
            let k = choose|k: int| 0 <= k < left.len() && left[k] == wait;
            if k < others(rest, select).len() {
                assert(others(rest, select)[k] == wait);
                assert(others(rest, select).contains(wait));
                let j = choose|j: int| 0 <= j < rest.len() && rest[j] == wait;
                assert(waits[j] == wait);
            } else {
                assert(waits[waits.len() - 1] == wait);
            }
        }
        assert forall|id: u64| #[trigger] ids.contains(id) implies exists|i: int|
            0 <= i < waits.len() && select(waits[i]) && (#[trigger] waits[i]).id == id by {
            let k = choose|k: int| 0 <= k < ids.len() && ids[k] == id;
            if k < ids_of(rest, select).len() {
                assert(ids_of(rest, select)[k] == id);
                assert(ids_of(rest, select).contains(id));
                let j = choose|j: int|
                    0 <= j < rest.len() && select(rest[j]) && (#[trigger] rest[j]).id == id;
                assert(waits[j] == rest[j]);
            } else {
                assert(waits[waits.len() - 1].id == id);
            }
        }
    }
}

} // verus!
