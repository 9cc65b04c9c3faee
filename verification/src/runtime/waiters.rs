//! Callers that wait for the bare outcome of a frame they submitted.

use crate::runtime::reducer::{ReduceEffect, RequestKey, TerminalOutcome};
use crate::runtime::state::OwnerEffect;
use vstd::prelude::*;

verus! {

/// An outcome that goes to the caller of a submitted frame.
#[derive(Clone, Copy, Debug, PartialEq, Eq, Structural)]
pub struct TerminalDelivery {
    pub key: RequestKey,
    pub outcome: TerminalOutcome,
}

/// The outcome that one effect publishes, if it publishes one.
pub open spec fn published_outcome(effect: OwnerEffect) -> Option<TerminalDelivery> {
    match effect {
        OwnerEffect::Request { key, effect: ReduceEffect::Publish(outcome) } => Some(
            TerminalDelivery { key, outcome },
        ),
        _ => None,
    }
}

/// Hands published outcomes to those who wait, each once.
pub open spec fn outcomes_delivered(keys: Seq<RequestKey>, effects: Seq<OwnerEffect>) -> (
    Seq<RequestKey>,
    Seq<TerminalDelivery>,
)
    decreases effects.len(),
{
    if effects.len() == 0 {
        (keys, Seq::empty())
    } else {
        let (waiting, deliveries) = outcomes_delivered(keys, effects.drop_last());
        match published_outcome(effects.last()) {
            Some(delivery) => if waiting.contains(delivery.key) {
                (waiting.remove(waiting.index_of(delivery.key)), deliveries.push(delivery))
            } else {
                (waiting, deliveries)
            },
            None => (waiting, deliveries),
        }
    }
}

/// Whoever is left waiting was waiting before.
pub proof fn delivery_only_removes(keys: Seq<RequestKey>, effects: Seq<OwnerEffect>)
    requires
        keys.no_duplicates(),
    ensures
        outcomes_delivered(keys, effects).0.no_duplicates(),
        forall|k: RequestKey| #[trigger]
            outcomes_delivered(keys, effects).0.contains(k) ==> keys.contains(k),
    decreases effects.len(),
{
    if effects.len() > 0 {
        delivery_only_removes(keys, effects.drop_last());
        let (waiting, deliveries) = outcomes_delivered(keys, effects.drop_last());
        match published_outcome(effects.last()) {
            Some(delivery) => if waiting.contains(delivery.key) {
                let p = waiting.index_of(delivery.key);
                let left = waiting.remove(p);
                assert forall|k: RequestKey| #[trigger] left.contains(k) implies keys.contains(
                    k,
                ) by {
                    let i = choose|i: int| 0 <= i < left.len() && left[i] == k;
                    let j = if i < p {
                        i
                    } else {
                        i + 1
                    };
                    assert(waiting[j] == k);
                    assert(waiting.contains(k));
                }
                assert forall|i: int, j: int|
                    0 <= i < left.len() && 0 <= j < left.len() && i != j implies left[i]
                    != left[j] by {
                    let a = if i < p {
                        i
                    } else {
                        i + 1
                    };
                    let b = if j < p {
                        j
                    } else {
                        j + 1
                    };
                    assert(waiting[a] != waiting[b]);
                }
            },
            None => {},
        }
    }
}

pub struct TerminalWaiters {
    keys: Vec<RequestKey>,
}

impl View for TerminalWaiters {
    type V = Seq<RequestKey>;

    closed spec fn view(&self) -> Seq<RequestKey> {
        self.keys@
    }
}

impl TerminalWaiters {
    pub fn new() -> (waiters: Self)
        ensures
            waiters@ == Seq::<RequestKey>::empty(),
    {
        TerminalWaiters { keys: Vec::new() }
    }

    pub fn push(&mut self, key: RequestKey)
        ensures
            final(self)@ == old(self)@.push(key),
    {
        self.keys.push(key);
    }

    fn find(&self, key: RequestKey) -> (found: Option<usize>)
        requires
            self@.no_duplicates(),
        ensures
            found is Some == self@.contains(key),
            found matches Some(i) ==> i < self@.len() && i == self@.index_of(key),
    {
        let mut i: usize = 0;
        while i < self.keys.len()
            invariant
                i <= self.keys@.len(),
                self@ == self.keys@,
                self@.no_duplicates(),
                forall|k: int| 0 <= k < i ==> self.keys@[k] != key,
            decreases self.keys@.len() - i,
        {
            if self.keys[i] == key {
                assert(self@[i as int] == key);
                return Some(i);
            }
            i += 1;
        }
        None
    }

    /// Hands published outcomes to those who wait for them.
    pub fn apply_owner_effects(&mut self, effects: &Vec<OwnerEffect>) -> (deliveries: Vec<
        TerminalDelivery,
    >)
        requires
            old(self)@.no_duplicates(),
        ensures
            (final(self)@, deliveries@) == outcomes_delivered(old(self)@, effects@),
            final(self)@.no_duplicates(),
            forall|k: RequestKey| #[trigger] final(self)@.contains(k) ==> old(self)@.contains(k),
    {
        let mut deliveries: Vec<TerminalDelivery> = Vec::new();
        let mut i: usize = 0;
        while i < effects.len()
            invariant
                i <= effects@.len(),
                self@ == self.keys@,
                old(self)@.no_duplicates(),
                (self@, deliveries@) == outcomes_delivered(old(self)@, effects@.take(i as int)),
            decreases effects@.len() - i,
        {
            proof {
                assert(effects@.take(i + 1).drop_last() =~= effects@.take(i as int));
                delivery_only_removes(old(self)@, effects@.take(i as int));
            }
            if let OwnerEffect::Request { key, effect: ReduceEffect::Publish(outcome) } = effects[i] {
                if let Some(place) = self.find(key) {
                    let _ = self.keys.remove(place);
                    deliveries.push(TerminalDelivery { key, outcome });
                }
            }
            i += 1;
        }
        proof {
            assert(effects@.take(i as int) =~= effects@);
            delivery_only_removes(old(self)@, effects@);
        }
        deliveries
    }

    /// Everybody who still waits, in order; nobody waits afterwards.
    pub fn drain(&mut self) -> (keys: Vec<RequestKey>)
        ensures
            keys@ == old(self)@,
            final(self)@ == Seq::<RequestKey>::empty(),
    {
        let mut keys: Vec<RequestKey> = Vec::new();
        keys.append(&mut self.keys);
        assert(keys@ =~= old(self)@);
        keys
    }
}

} // verus!
