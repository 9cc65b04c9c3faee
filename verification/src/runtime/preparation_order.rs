//! Releases completions in the order in which they were reserved.

use vstd::prelude::*;

verus! {

/// One reserved place: its key, and its value once it is completed.
pub struct Reservation<V> {
    pub key: u64,
    pub value: Option<V>,
}

/// Places by order of reservation; keys of places that wait are distinct.
pub struct OrderedCompletionQueue<V> {
    order: Vec<Reservation<V>>,
}

impl<V> View for OrderedCompletionQueue<V> {
    type V = Seq<Reservation<V>>;

    closed spec fn view(&self) -> Seq<Reservation<V>> {
        self.order@
    }
}

/// How many places at the front are completed.
pub open spec fn ready_prefix<V>(places: Seq<Reservation<V>>) -> nat
    decreases places.len(),
{
    if places.len() == 0 || places[0].value is None {
        0
    } else {
        1 + ready_prefix(places.drop_first())
    }
}

/// The values of the first `n` places.
pub open spec fn values<V>(places: Seq<Reservation<V>>, n: nat) -> Seq<V> {
    Seq::new(n, |i: int| places[i].value.unwrap())
}

pub open spec fn reserved<V>(places: Seq<Reservation<V>>, key: u64) -> bool {
    exists|i: int| 0 <= i < places.len() && (#[trigger] places[i]).key == key
}

pub open spec fn place_of<V>(places: Seq<Reservation<V>>, key: u64) -> int {
    choose|i: int| 0 <= i < places.len() && (#[trigger] places[i]).key == key
}

/// The places once `key` has its value.
pub open spec fn completed<V>(places: Seq<Reservation<V>>, key: u64, value: V) -> Seq<
    Reservation<V>,
> {
    places.update(place_of(places, key), Reservation { key, value: Some(value) })
}

proof fn ready_prefix_is_completed<V>(places: Seq<Reservation<V>>)
    ensures
        ready_prefix(places) <= places.len(),
        forall|i: int| 0 <= i < ready_prefix(places) ==> (#[trigger] places[i]).value is Some,
        ready_prefix(places) < places.len() ==> places[ready_prefix(places) as int].value is None,
    decreases places.len(),
{
    if places.len() > 0 && places[0].value is Some {
        let rest = places.drop_first();
        ready_prefix_is_completed(rest);
        assert forall|i: int| 0 <= i < ready_prefix(places) implies (
        #[trigger] places[i]).value is Some by {
            if i > 0 {
                assert(rest[i - 1] == places[i]);
            }
        }
    }
}

proof fn prefix_is_determined<V>(places: Seq<Reservation<V>>, n: nat)
    requires
        n <= places.len(),
        forall|i: int| 0 <= i < n ==> (#[trigger] places[i]).value is Some,
        n < places.len() ==> places[n as int].value is None,
    ensures
        ready_prefix(places) == n,
    decreases places.len(),
{
    if n > 0 {
        let rest = places.drop_first();
        assert(places[0].value is Some);
        prefix_is_determined(rest, (n - 1) as nat);
    }
}

impl<V> Default for OrderedCompletionQueue<V> {
    fn default() -> (queue: Self)
        ensures
            queue@ == Seq::<Reservation<V>>::empty(),
            queue.wf(),
    {
        OrderedCompletionQueue { order: Vec::new() }
    }
}

impl<V> OrderedCompletionQueue<V> {
    /// Keys of places that wait are distinct, and the first place, if any,
    /// waits for its value: all before it have been released.
    pub open spec fn wf(&self) -> bool {
        &&& forall|i: int, j: int|
            0 <= i < j < self@.len() ==> (#[trigger] self@[i]).key != (#[trigger] self@[j]).key
        &&& self@.len() > 0 ==> self@[0].value is None
    }

    pub fn is_empty(&self) -> (empty: bool)
        ensures
            empty == (self@.len() == 0),
    {
        self.order.len() == 0
    }

    /// Reserves the next place for `key`, which must not wait already.
    pub fn reserve(&mut self, key: u64)
        requires
            old(self).wf(),
            !reserved(old(self)@, key),
        ensures
            final(self)@ == old(self)@.push(Reservation { key, value: None }),
            final(self).wf(),
    {
        self.order.push(Reservation { key, value: None });
        assert forall|i: int, j: int| 0 <= i < j < self@.len() implies (#[trigger] self@[i]).key
            != (#[trigger] self@[j]).key by {
            if j == old(self)@.len() {
                assert(old(self)@[i].key != key);
            }
        }
    }

    /// Where `key` waits for its value.
    fn find(&self, key: u64) -> (place: usize)
        requires
            self.wf(),
            reserved(self@, key),
        ensures
            place < self@.len(),
            place == place_of(self@, key),
            self@[place as int].key == key,
    {
        let mut i: usize = 0;
        while self.order[i].key != key
            invariant
                i < self.order.len(),
                self@ == self.order@,
                reserved(self@, key),
                forall|k: int| 0 <= k < i ==> (#[trigger] self@[k]).key != key,
            decreases self@.len() - i,
        {
            proof {
                let p = place_of(self@, key);
                assert(0 <= p < self@.len() && self@[p].key == key);
                assert(self@[i as int].key != key);
            }
            i += 1;
        }
        proof {
            let p = place_of(self@, key);
            if p < i {
                assert(self@[p].key != self@[i as int].key);
            } else if p > i {
                assert(self@[i as int].key != self@[p].key);
            }
        }
        i
    }

    /// Completes the place of `key`, which waits for its value, and releases
    /// every completed place up to the first that still waits.
    pub fn complete(&mut self, key: u64, value: V) -> (ready: Vec<V>)
        requires
            old(self).wf(),
            reserved(old(self)@, key),
            old(self)@[place_of(old(self)@, key)].value is None,
        ensures
            ({
                let places = completed(old(self)@, key, value);
                let n = ready_prefix(places);
                &&& ready@ == values(places, n)
                &&& final(self)@ == places.skip(n as int)
            }),
            final(self).wf(),
    {
        let place: usize = self.find(key);
        self.order.set(place, Reservation { key, value: Some(value) });
        let ghost places = self@;
        let mut ready: Vec<V> = Vec::new();
        proof {
            ready_prefix_is_completed(places);
            assert forall|i: int, j: int| 0 <= i < j < places.len() implies (
            #[trigger] places[i]).key != (#[trigger] places[j]).key by {
                assert(old(self)@[i].key != old(self)@[j].key);
            }
            assert(places.skip(0) =~= places);
        }
        while self.order.len() > 0 && self.order[0].value.is_some()
            invariant
                ready@.len() <= places.len(),
                self.order@ == places.skip(ready@.len() as int),
                forall|i: int| 0 <= i < ready@.len() ==> (#[trigger] places[i]).value == Some(
                    ready@[i],
                ),
            decreases self.order@.len(),
        {
            let first = self.order.remove(0);
            match first.value {
                Some(value) => {
                    ready.push(value);
                },
                None => {},
            }
            proof {
                assert(self.order@ =~= places.skip(ready@.len() as int));
            }
        }
        proof {
            prefix_is_determined(places, ready@.len());
            assert(ready@ =~= values(places, ready@.len()));
            assert forall|i: int, j: int| 0 <= i < j < self@.len() implies (
            #[trigger] self@[i]).key != (#[trigger] self@[j]).key by {
                let n = ready@.len() as int;
                assert(places[n + i].key != places[n + j].key);
            }
        }
        ready
    }
}

/// One call on a queue.
pub enum QueueCall<V> {
    Reserve(u64),
    Complete(u64, V),
}

/// Every place that was ever reserved, in order of reservation, with its value
/// where it was completed.
pub open spec fn recorded<V>(calls: Seq<QueueCall<V>>) -> Seq<Reservation<V>>
    decreases calls.len(),
{
    if calls.len() == 0 {
        Seq::empty()
    } else {
        let earlier = recorded(calls.drop_last());
        match calls.last() {
            QueueCall::Reserve(key) => earlier.push(Reservation { key, value: None }),
            QueueCall::Complete(key, value) => completed(earlier, key, value),
        }
    }
}

/// Whether the keys that were reserved are distinct, and each was completed at
/// most once, behind its reservation.
pub open spec fn in_order<V>(calls: Seq<QueueCall<V>>) -> bool
    decreases calls.len(),
{
    calls.len() == 0 || {
        let earlier = recorded(calls.drop_last());
        &&& in_order(calls.drop_last())
        &&& match calls.last() {
            QueueCall::Reserve(key) => !reserved(earlier, key),
            QueueCall::Complete(key, value) => reserved(earlier, key) && earlier[place_of(
                earlier,
                key,
            )].value is None,
        }
    }
}

/// The places that a queue holds after some calls, and all that the calls
/// released, in turn.
pub open spec fn run<V>(calls: Seq<QueueCall<V>>) -> (Seq<Reservation<V>>, Seq<V>)
    decreases calls.len(),
{
    if calls.len() == 0 {
        (Seq::empty(), Seq::empty())
    } else {
        let (places, released) = run(calls.drop_last());
        match calls.last() {
            QueueCall::Reserve(key) => (places.push(Reservation { key, value: None }), released),
            QueueCall::Complete(key, value) => {
                let next = completed(places, key, value);
                let n = ready_prefix(next);
                (next.skip(n as int), released + values(next, n))
            },
        }
    }
}

proof fn prefix_behind_completed<V>(places: Seq<Reservation<V>>, n: nat)
    requires
        n <= places.len(),
        forall|i: int| 0 <= i < n ==> (#[trigger] places[i]).value is Some,
    ensures
        ready_prefix(places) == n + ready_prefix(places.skip(n as int)),
{
    let rest = places.skip(n as int);
    ready_prefix_is_completed(rest);
    let m = n + ready_prefix(rest);
    assert forall|i: int| 0 <= i < m implies (#[trigger] places[i]).value is Some by {
        if i >= n {
            assert(rest[i - n] == places[i]);
        }
    }
    if m < places.len() {
        assert(rest[m - n] == places[m as int]);
    }
    prefix_is_determined(places, m);
}

proof fn place_is_unique<V>(places: Seq<Reservation<V>>, key: u64, i: int)
    requires
        forall|a: int, b: int|
            0 <= a < b < places.len() ==> (#[trigger] places[a]).key != (#[trigger] places[b]).key,
        0 <= i < places.len(),
        places[i].key == key,
    ensures
        reserved(places, key),
        place_of(places, key) == i,
{
    let p = place_of(places, key);
    assert(0 <= p < places.len() && places[p].key == key);
    if p < i {
        assert(places[p].key != places[i].key);
    } else if i < p {
        assert(places[i].key != places[p].key);
    }
}

/// Over any run of calls, what was released is the values of the longest
/// completed prefix of the reservations, in order of reservation: nothing is
/// released early, late, twice or out of turn. The queue holds the rest, and
/// is empty exactly when all of them were released. Every call finds the queue
/// as it requires it.
pub proof fn releases_follow_the_reservations<V>(calls: Seq<QueueCall<V>>)
    requires
        in_order(calls),
    ensures
        ({
            let all = recorded(calls);
            let m = ready_prefix(all);
            let (places, released) = run(calls);
            &&& m <= all.len()
            &&& released == values(all, m)
            &&& places == all.skip(m as int)
            &&& places.len() == 0 <==> m == all.len()
            &&& forall|i: int, j: int|
                0 <= i < j < all.len() ==> (#[trigger] all[i]).key != (#[trigger] all[j]).key
        }),
        calls.len() > 0 ==> match calls.last() {
            QueueCall::Reserve(key) => !reserved(run(calls.drop_last()).0, key),
            QueueCall::Complete(key, _) => {
                let places = run(calls.drop_last()).0;
                reserved(places, key) && places[place_of(places, key)].value is None
            },
        },
    decreases calls.len(),
{
    let all = recorded(calls);
    let m = ready_prefix(all);
    ready_prefix_is_completed(all);
    if calls.len() == 0 {
        assert(all.skip(0) =~= Seq::empty());
        assert(values(all, 0) =~= Seq::empty());
    } else {
        let earlier = recorded(calls.drop_last());
        let k = ready_prefix(earlier);
        let (places, released) = run(calls.drop_last());
        releases_follow_the_reservations(calls.drop_last());
        ready_prefix_is_completed(earlier);
        match calls.last() {
            QueueCall::Reserve(key) => {
                if reserved(places, key) {
                    let p = place_of(places, key);
                    assert(places[p].key == key);
                    assert(earlier[k + p].key == key);
                }
                assert forall|i: int, j: int| 0 <= i < j < all.len() implies (
                #[trigger] all[i]).key != (#[trigger] all[j]).key by {
                    if j == earlier.len() {
                        assert(earlier[i].key != key);
                    } else {
                        assert(earlier[i].key != earlier[j].key);
                    }
                }
                assert forall|i: int| 0 <= i < k implies (#[trigger] all[i]).value is Some by {
                    assert(earlier[i].value is Some);
                }
                prefix_is_determined(all, k);
                assert(all.skip(k as int) =~= run(calls).0);
                assert(values(all, k) =~= values(earlier, k));
            },
            QueueCall::Complete(key, value) => {
                let p = place_of(earlier, key);
                assert(0 <= p < earlier.len() && earlier[p].key == key);
                assert(p >= k) by {
                    if p < k {
                        assert(earlier[p].value is Some);
                    }
                }
                assert(places[p - k] == earlier[p]);
                assert forall|a: int, b: int| 0 <= a < b < places.len() implies (
                #[trigger] places[a]).key != (#[trigger] places[b]).key by {
                    assert(earlier[k + a].key != earlier[k + b].key);
                }
                place_is_unique(places, key, p - k);
                let next = completed(places, key, value);
                assert(all.skip(k as int) =~= next);
                assert forall|i: int| 0 <= i < k implies (#[trigger] all[i]).value is Some by {
                    assert(earlier[i].value is Some);
                }
                prefix_behind_completed(all, k);
                ready_prefix_is_completed(next);
                let n = ready_prefix(next);
                assert(next.skip(n as int) =~= all.skip(m as int));
                assert(values(earlier, k) + values(next, n) =~= values(all, m));
                assert forall|i: int, j: int| 0 <= i < j < all.len() implies (
                #[trigger] all[i]).key != (#[trigger] all[j]).key by {
                    assert(earlier[i].key != earlier[j].key);
                }
            },
        }
    }
}

/// What is released are the values of the places at the front that are
/// completed, in their order, up to the first that is not; completing a place
/// gives it its value and touches no other.
pub proof fn completed_places_are_released<V>(places: Seq<Reservation<V>>, at: int, value: V, i: int)
    requires
        0 <= at < places.len(),
        0 <= i < places.len(),
        forall|j: int, k: int|
            0 <= j < k < places.len() ==> (#[trigger] places[j]).key != (#[trigger] places[k]).key,
    ensures
        ({
            let next = completed(places, places[at].key, value);
            let n = ready_prefix(next);
            &&& next.len() == places.len()
            &&& next[at].key == places[at].key
            &&& next[at].value == Some(value)
            &&& i != at ==> next[i] == places[i]
            &&& n <= next.len()
            &&& i < n ==> next[i].value is Some && values(next, n)[i] == next[i].value->Some_0
            &&& n < next.len() ==> next[n as int].value is None
            &&& values(next, n).len() == n
        }),
{
    place_is_unique(places, places[at].key, at);
    ready_prefix_is_completed(completed(places, places[at].key, value));
}

} // verus!
