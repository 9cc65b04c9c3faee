//! Deterministic authority for server-initiated lease and oplock breaks.
//!
//! A break is first invalidated locally, then acknowledged where the server
//! asks for it, and only then published.

use crate::clock::{Duration, MonotonicTime};
use crate::runtime::reducer::GenerationId;
use vstd::prelude::*;

verus! {

#[derive(Clone, Copy, Debug, PartialEq, Eq, Structural)]
pub struct BreakKey {
    pub generation: GenerationId,
    pub lease_key: u128,
    pub epoch: u16,
}

#[derive(Clone, Copy, Debug, PartialEq, Eq, Structural)]
pub struct EventPolicy {
    pub capacity: usize,
    pub ack_timeout: Duration,
}

#[derive(Clone, Copy, Debug, PartialEq, Eq, Structural)]
pub enum AckOutcome {
    NotRequired,
    Accepted,
    Failed,
    TimedOut,
}

#[derive(Clone, Copy, Debug, PartialEq, Eq, Structural)]
pub enum BreakState {
    Received { ack_required: bool },
    AckPending { deadline: MonotonicTime },
}

#[derive(Clone, Copy, Debug, PartialEq, Eq, Structural)]
pub enum EventInput {
    Receive { key: BreakKey, ack_required: bool },
    Invalidated { key: BreakKey, now: MonotonicTime },
    AckCompleted { key: BreakKey, accepted: bool },
    AckDeadline { key: BreakKey, now: MonotonicTime },
    ReplaceGeneration(GenerationId),
    Close,
}

#[derive(Clone, Copy, Debug, PartialEq, Eq, Structural)]
pub enum EventEffect {
    Invalidate(BreakKey),
    SendAck { key: BreakKey, deadline: MonotonicTime },
    Publish { key: BreakKey, ack: AckOutcome },
    QueueFull(BreakKey),
    IgnoreStale(BreakKey),
    Closed,
}

/// A break that is being handled.
#[derive(Clone, Copy, Debug, PartialEq, Eq, Structural)]
pub struct PendingBreak {
    pub key: BreakKey,
    pub state: BreakState,
}

#[verifier::ext_equal]
pub struct EventModel {
    pub generation: GenerationId,
    pub policy: EventPolicy,
    /// Breaks that are being handled, oldest first.
    pub pending: Seq<PendingBreak>,
    pub closed: bool,
}

impl EventModel {
    pub open spec fn initial(generation: GenerationId, policy: EventPolicy) -> EventModel {
        EventModel { generation, policy, pending: Seq::empty(), closed: false }
    }

    /// No more breaks are handled than the policy allows, each once, and all
    /// of the current generation; after a close none is.
    pub open spec fn wf(self) -> bool {
        &&& self.pending.len() <= self.policy.capacity
        &&& forall|i: int, j: int|
            0 <= i < j < self.pending.len() ==> (#[trigger] self.pending[i]).key != (
            #[trigger] self.pending[j]).key
        &&& forall|i: int|
            0 <= i < self.pending.len() ==> (#[trigger] self.pending[i]).key.generation
                == self.generation
        &&& self.closed ==> self.pending.len() == 0
    }

    pub open spec fn handles(self, key: BreakKey) -> bool {
        exists|i: int| 0 <= i < self.pending.len() && (#[trigger] self.pending[i]).key == key
    }

    pub open spec fn position(self, key: BreakKey) -> int {
        choose|i: int| 0 <= i < self.pending.len() && (#[trigger] self.pending[i]).key == key
    }

    /// How far the handling of a break has come.
    pub open spec fn state_of(self, key: BreakKey) -> Option<BreakState> {
        if self.handles(key) {
            Some(self.pending[self.position(key)].state)
        } else {
            None
        }
    }

    pub open spec fn dropped(self, key: BreakKey) -> EventModel {
        EventModel { pending: self.pending.remove(self.position(key)), ..self }
    }

    pub open spec fn published(self, key: BreakKey, ack: AckOutcome) -> (
        EventModel,
        Seq<EventEffect>,
    ) {
        (self.dropped(key), seq![EventEffect::Publish { key, ack }])
    }

    /// The state and the effects after one input.
    pub open spec fn step(self, input: EventInput) -> (EventModel, Seq<EventEffect>) {
        if self.closed {
            (self, seq![])
        } else {
            match input {
                EventInput::Receive { key, ack_required } => {
                    if key.generation != self.generation {
                        (self, seq![EventEffect::IgnoreStale(key)])
                    } else if self.handles(key) {
                        (self, seq![])
                    } else if self.pending.len() >= self.policy.capacity {
                        (self, seq![EventEffect::QueueFull(key)])
                    } else {
                        (
                            EventModel {
                                pending: self.pending.push(
                                    PendingBreak {
                                        key,
                                        state: BreakState::Received { ack_required },
                                    },
                                ),
                                ..self
                            },
                            seq![EventEffect::Invalidate(key)],
                        )
                    }
                },
                EventInput::Invalidated { key, now } => match self.state_of(key) {
                    Some(BreakState::Received { ack_required }) => if ack_required {
                        let deadline = now.plus(self.policy.ack_timeout);
                        (
                            EventModel {
                                pending: self.pending.update(
                                    self.position(key),
                                    PendingBreak { key, state: BreakState::AckPending { deadline } },
                                ),
                                ..self
                            },
                            seq![EventEffect::SendAck { key, deadline }],
                        )
                    } else {
                        self.published(key, AckOutcome::NotRequired)
                    },
                    _ => (self, seq![]),
                },
                EventInput::AckCompleted { key, accepted } => match self.state_of(key) {
                    Some(BreakState::AckPending { .. }) => self.published(
                        key,
                        if accepted {
                            AckOutcome::Accepted
                        } else {
                            AckOutcome::Failed
                        },
                    ),
                    _ => (self, seq![]),
                },
                EventInput::AckDeadline { key, now } => match self.state_of(key) {
                    Some(BreakState::AckPending { deadline }) => if now@ < deadline@ {
                        (self, seq![])
                    } else {
                        self.published(key, AckOutcome::TimedOut)
                    },
                    _ => (self, seq![]),
                },
                EventInput::ReplaceGeneration(generation) => (
                    EventModel {
                        generation,
                        pending: self.pending.filter(
                            |entry: PendingBreak| entry.key.generation == generation,
                        ),
                        ..self
                    },
                    seq![],
                ),
                EventInput::Close => (
                    EventModel { pending: Seq::empty(), closed: true, ..self },
                    seq![EventEffect::Closed],
                ),
            }
        }
    }
}

proof fn filter_keeps_distinct(pending: Seq<PendingBreak>, generation: GenerationId)
    requires
        forall|i: int, j: int|
            0 <= i < j < pending.len() ==> (#[trigger] pending[i]).key != (
            #[trigger] pending[j]).key,
    ensures
        ({
            let kept = pending.filter(|entry: PendingBreak| entry.key.generation == generation);
            &&& kept.len() <= pending.len()
            &&& forall|i: int, j: int|
                0 <= i < j < kept.len() ==> (#[trigger] kept[i]).key != (#[trigger] kept[j]).key
            &&& forall|i: int|
                0 <= i < kept.len() ==> (#[trigger] kept[i]).key.generation == generation
            &&& forall|i: int| 0 <= i < kept.len() ==> pending.contains(#[trigger] kept[i])
        }),
    decreases pending.len(),
{
    reveal(Seq::filter);
    let keep = |entry: PendingBreak| entry.key.generation == generation;
    if pending.len() > 0 {
        let rest = pending.drop_last();
        filter_keeps_distinct(rest, generation);
        let kept = pending.filter(keep);
        let earlier = rest.filter(keep);
        assert forall|i: int| 0 <= i < kept.len() implies pending.contains(
            #[trigger] kept[i],
        ) by {
            if i < earlier.len() {
                assert(rest.contains(earlier[i]));
                let k = choose|k: int| 0 <= k < rest.len() && rest[k] == earlier[i];
                assert(pending[k] == kept[i]);
            } else {
                assert(pending[pending.len() - 1] == kept[i]);
            }
        }
        assert forall|i: int, j: int| 0 <= i < j < kept.len() implies (#[trigger] kept[i]).key
            != (#[trigger] kept[j]).key by {
            if j == earlier.len() {
                assert(rest.contains(earlier[i]));
                let k = choose|k: int| 0 <= k < rest.len() && rest[k] == earlier[i];
                assert(pending[k].key != pending[pending.len() - 1].key);
            }
        }
    }
}

pub struct EventAuthority {
    generation: GenerationId,
    policy: EventPolicy,
    pending: Vec<PendingBreak>,
    closed: bool,
}

impl View for EventAuthority {
    type V = EventModel;

    closed spec fn view(&self) -> EventModel {
        EventModel {
            generation: self.generation,
            policy: self.policy,
            pending: self.pending@,
            closed: self.closed,
        }
    }
}

impl EventAuthority {
    pub fn new(generation: GenerationId, policy: EventPolicy) -> (authority: Self)
        ensures
            authority@ == EventModel::initial(generation, policy),
            authority@.wf(),
    {
        EventAuthority { generation, policy, pending: Vec::new(), closed: false }
    }

    fn find(&self, key: BreakKey) -> (found: Option<usize>)
        requires
            self@.wf(),
        ensures
            found is Some == self@.handles(key),
            found matches Some(i) ==> i < self@.pending.len() && i == self@.position(key)
                && self@.pending[i as int].key == key,
    {
        let mut i: usize = 0;
        while i < self.pending.len()
            invariant
                i <= self.pending@.len(),
                self@.wf(),
                self@.pending == self.pending@,
                forall|k: int| 0 <= k < i ==> (#[trigger] self.pending@[k]).key != key,
            decreases self.pending@.len() - i,
        {
            if self.pending[i].key == key {
                proof {
                    assert(self@.pending[i as int].key == key);
                    let p = self@.position(key);
                    if p < i {
                        assert(self@.pending[p].key != self@.pending[i as int].key);
                    } else if p > i {
                        assert(self@.pending[i as int].key != self@.pending[p].key);
                    }
                }
                return Some(i);
            }
            i += 1;
        }
        None
    }

    fn publish(&mut self, i: usize, key: BreakKey, ack: AckOutcome) -> (effects: Vec<EventEffect>)
        requires
            old(self)@.wf(),
            !old(self)@.closed,
            i < old(self)@.pending.len(),
            i == old(self)@.position(key),
        ensures
            (final(self)@, effects@) == old(self)@.published(key, ack),
            final(self)@.wf(),
    {
        let _ = self.pending.remove(i);
        vec![EventEffect::Publish { key, ack }]
    }

    pub fn reduce(&mut self, input: EventInput) -> (effects: Vec<EventEffect>)
        requires
            old(self)@.wf(),
        ensures
            (final(self)@, effects@) == old(self)@.step(input),
            final(self)@.wf(),
    {
        if self.closed {
            return Vec::new();
        }
        match input {
            EventInput::Receive { key, ack_required } => self.receive(key, ack_required),
            EventInput::Invalidated { key, now } => {
                let i: usize = match self.find(key) {
                    Some(i) => i,
                    None => {
                        return Vec::new();
                    },
                };
                match self.pending[i].state {
                    BreakState::Received { ack_required } => {
                        if ack_required {
                            let deadline = now.saturating_add(self.policy.ack_timeout);
                            self.pending.set(
                                i,
                                PendingBreak { key, state: BreakState::AckPending { deadline } },
                            );
                            vec![EventEffect::SendAck { key, deadline }]
                        } else {
                            self.publish(i, key, AckOutcome::NotRequired)
                        }
                    },
                    BreakState::AckPending { .. } => Vec::new(),
                }
            },
            EventInput::AckCompleted { key, accepted } => {
                let i: usize = match self.find(key) {
                    Some(i) => i,
                    None => {
                        return Vec::new();
                    },
                };
                match self.pending[i].state {
                    BreakState::Received { .. } => Vec::new(),
                    BreakState::AckPending { .. } => {
                        let ack = if accepted {
                            AckOutcome::Accepted
                        } else {
                            AckOutcome::Failed
                        };
                        self.publish(i, key, ack)
                    },
                }
            },
            EventInput::AckDeadline { key, now } => {
                let i: usize = match self.find(key) {
                    Some(i) => i,
                    None => {
                        return Vec::new();
                    },
                };
                match self.pending[i].state {
                    BreakState::Received { .. } => Vec::new(),
                    BreakState::AckPending { deadline } => {
                        if deadline.at_or_before(now) {
                            self.publish(i, key, AckOutcome::TimedOut)
                        } else {
                            Vec::new()
                        }
                    },
                }
            },
            EventInput::ReplaceGeneration(generation) => {
                self.replace_generation(generation);
                Vec::new()
            },
            EventInput::Close => {
                self.pending = Vec::new();
                self.closed = true;
                vec![EventEffect::Closed]
            },
        }
    }

    fn receive(&mut self, key: BreakKey, ack_required: bool) -> (effects: Vec<EventEffect>)
        requires
            old(self)@.wf(),
            !old(self)@.closed,
        ensures
            (final(self)@, effects@) == old(self)@.step(EventInput::Receive { key, ack_required }),
            final(self)@.wf(),
    {
        if key.generation != self.generation {
            return vec![EventEffect::IgnoreStale(key)];
        }
        if self.find(key).is_some() {
            return Vec::new();
        }
        if self.pending.len() >= self.policy.capacity {
            return vec![EventEffect::QueueFull(key)];
        }
        self.pending.push(PendingBreak { key, state: BreakState::Received { ack_required } });
        vec![EventEffect::Invalidate(key)]
    }

    fn replace_generation(&mut self, generation: GenerationId)
        requires
            old(self)@.wf(),
            !old(self)@.closed,
        ensures
            final(self)@ == old(self)@.step(EventInput::ReplaceGeneration(generation)).0,
            final(self)@.wf(),
    {
        let ghost pending = self.pending@;
        let ghost keep = |entry: PendingBreak| entry.key.generation == generation;
        let mut kept: Vec<PendingBreak> = Vec::new();
        let mut i: usize = 0;
        proof {
            reveal(Seq::filter);
        }
        while i < self.pending.len()
            invariant
                i <= pending.len(),
                self.pending@ == pending,
                keep == (|entry: PendingBreak| entry.key.generation == generation),
                kept@ == pending.take(i as int).filter(keep),
            decreases pending.len() - i,
        {
            let entry = self.pending[i];
            proof {
                reveal(Seq::filter);
                assert(pending.take(i + 1).drop_last() =~= pending.take(i as int));
                assert(pending.take(i + 1).last() == entry);
            }
            if entry.key.generation == generation {
                kept.push(entry);
            }
            i += 1;
        }
        proof {
            assert(pending.take(i as int) =~= pending);
            filter_keeps_distinct(pending, generation);
        }
        self.generation = generation;
        self.pending = kept;
    }
}

/// A break is published only after it was invalidated, and where the server
/// asked for it only after its acknowledgement was sent: what was received
/// without a request for one is published as not requiring it, and every other
/// outcome belongs to an acknowledgement that is under way.
pub proof fn invalidation_and_ack_precede_publication(
    model: EventModel,
    input: EventInput,
    key: BreakKey,
    ack: AckOutcome,
)
    requires
        model.wf(),
        model.step(input).1.contains(EventEffect::Publish { key, ack }),
    ensures
        ack == AckOutcome::NotRequired ==> model.state_of(key) == Some(
            BreakState::Received { ack_required: false },
        ) && input is Invalidated,
        ack != AckOutcome::NotRequired ==> model.state_of(key) matches Some(
            BreakState::AckPending { .. },
        ),
        !model.step(input).0.handles(key),
{
    let effects = model.step(input).1;
    assert(effects.len() == 1 && effects[0] == (EventEffect::Publish { key, ack }));
    let p = model.position(key);
    let next = model.step(input).0;
    assert(next.pending == model.pending.remove(p));
    if next.handles(key) {
        let q = next.position(key);
        let r = if q < p {
            q
        } else {
            q + 1
        };
        assert(model.pending[r].key == next.pending[q].key);
        if r < p {
            assert(model.pending[r].key != model.pending[p].key);
        } else {
            assert(model.pending[p].key != model.pending[r].key);
        }
    }
}

/// After a close nothing happens any more.
pub proof fn closed_authority_is_inert(model: EventModel, input: EventInput)
    requires
        model.closed,
    ensures
        model.step(input) == (model, Seq::<EventEffect>::empty()),
{
}

/// The state after some inputs, oldest first.
pub open spec fn lived(model: EventModel, inputs: Seq<EventInput>) -> EventModel
    decreases inputs.len(),
{
    if inputs.len() == 0 {
        model
    } else {
        lived(model, inputs.drop_last()).step(inputs.last()).0
    }
}

/// What the `t`th input of a history brings about.
pub open spec fn effects_at(model: EventModel, inputs: Seq<EventInput>, t: int) -> Seq<EventEffect> {
    lived(model, inputs.take(t)).step(inputs[t]).1
}

/// Whether the `t`th input of a history invalidates a break.
pub open spec fn invalidates(model: EventModel, inputs: Seq<EventInput>, t: int, key: BreakKey) -> bool {
    effects_at(model, inputs, t).contains(EventEffect::Invalidate(key))
}

/// Whether the `t`th input of a history sends the acknowledgement of a break.
pub open spec fn acknowledges(
    model: EventModel,
    inputs: Seq<EventInput>,
    t: int,
    key: BreakKey,
) -> bool {
    exists|deadline: MonotonicTime|
        effects_at(model, inputs, t).contains(#[trigger] ack_of(key, deadline))
}

pub open spec fn ack_of(key: BreakKey, deadline: MonotonicTime) -> EventEffect {
    EventEffect::SendAck { key, deadline }
}

/// Whether the `t`th input of a history publishes a break.
pub open spec fn publishes(model: EventModel, inputs: Seq<EventInput>, t: int, key: BreakKey) -> bool {
    exists|ack: AckOutcome| effects_at(model, inputs, t).contains(#[trigger] publication_of(key, ack))
}

pub open spec fn publication_of(key: BreakKey, ack: AckOutcome) -> EventEffect {
    EventEffect::Publish { key, ack }
}

/// Whether the `i`th input of a history was the arrival of a break that was
/// invalidated on it, and nothing since, before the `t`th, has invalidated it
/// again or published it.
pub open spec fn opened_at(
    model: EventModel,
    inputs: Seq<EventInput>,
    i: int,
    t: int,
    key: BreakKey,
    ack_required: bool,
) -> bool {
    &&& 0 <= i < t
    &&& inputs[i] == EventInput::Receive { key, ack_required }
    &&& invalidates(model, inputs, i, key)
    &&& forall|j: int|
        i < j < t ==> !(#[trigger] invalidates(model, inputs, j, key)) && !publishes(
            model,
            inputs,
            j,
            key,
        )
}

/// Whether a break was acknowledged between two inputs of a history.
pub open spec fn acknowledged_between(
    model: EventModel,
    inputs: Seq<EventInput>,
    i: int,
    t: int,
    key: BreakKey,
) -> bool {
    exists|a: int| i < a < t && #[trigger] acknowledges(model, inputs, a, key)
}

proof fn position_is_unique(model: EventModel, key: BreakKey, i: int)
    requires
        model.wf(),
        0 <= i < model.pending.len(),
        model.pending[i].key == key,
    ensures
        model.handles(key),
        model.position(key) == i,
{
    let p = model.position(key);
    assert(0 <= p < model.pending.len() && model.pending[p].key == key);
    if p < i {
        assert(model.pending[p].key != model.pending[i].key);
    } else if i < p {
        assert(model.pending[i].key != model.pending[p].key);
    }
}

proof fn step_keeps_wf(model: EventModel, input: EventInput)
    requires
        model.wf(),
    ensures
        model.step(input).0.wf(),
        model.step(input).0.policy == model.policy,
        model.step(input).1.len() <= 1,
{
    if !model.closed {
        match input {
            EventInput::Receive { key, .. } => {
                if !model.handles(key) {
                    assert(forall|i: int|
                        0 <= i < model.pending.len() ==> (#[trigger] model.pending[i]).key != key);
                }
            },
            EventInput::ReplaceGeneration(generation) => {
                filter_keeps_distinct(model.pending, generation);
            },
            EventInput::Invalidated { key, .. } => {
                if model.handles(key) {
                    let p = model.position(key);
                    assert(0 <= p < model.pending.len() && model.pending[p].key == key);
                }
            },
            EventInput::AckCompleted { key, .. } => {
                if model.handles(key) {
                    let p = model.position(key);
                    assert(0 <= p < model.pending.len() && model.pending[p].key == key);
                }
            },
            EventInput::AckDeadline { key, .. } => {
                if model.handles(key) {
                    let p = model.position(key);
                    assert(0 <= p < model.pending.len() && model.pending[p].key == key);
                }
            },
            EventInput::Close => {},
        }
    }
}

/// How a step changes what is known of one break.
proof fn step_moves_break(model: EventModel, input: EventInput, key: BreakKey)
    requires
        model.wf(),
        model.step(input).0.handles(key),
    ensures
        ({
            let (next, effects) = model.step(input);
            ||| next.state_of(key) == model.state_of(key) && model.handles(key)
            ||| {
                &&& input matches EventInput::Receive { key: k, ack_required } && k == key
                    && next.state_of(key) == Some(BreakState::Received { ack_required })
                &&& effects == seq![EventEffect::Invalidate(key)]
            }
            ||| {
                &&& model.state_of(key) == Some(BreakState::Received { ack_required: true })
                &&& next.state_of(key) matches Some(BreakState::AckPending { deadline })
                    && effects == seq![EventEffect::SendAck { key, deadline }]
            }
        }),
{
    let (next, effects) = model.step(input);
    step_keeps_wf(model, input);
    let q = next.position(key);
    assert(0 <= q < next.pending.len() && next.pending[q].key == key);
    if !model.closed {
        match input {
            EventInput::Receive { key: k, .. } => {
                if q < model.pending.len() {
                    assert(next.pending[q] == model.pending[q]);
                    position_is_unique(model, key, q);
                }
            },
            EventInput::ReplaceGeneration(generation) => {
                filter_keeps_distinct(model.pending, generation);
                assert(model.pending.contains(next.pending[q]));
                let r = choose|r: int|
                    0 <= r < model.pending.len() && model.pending[r] == next.pending[q];
                position_is_unique(model, key, r);
            },
            EventInput::Invalidated { key: k, now } => {
                moved_by(model, input, k, key, q);
            },
            EventInput::AckCompleted { key: k, .. } => {
                moved_by(model, input, k, key, q);
            },
            EventInput::AckDeadline { key: k, .. } => {
                moved_by(model, input, k, key, q);
            },
            EventInput::Close => {},
        }
    }
}

proof fn moved_by(model: EventModel, input: EventInput, k: BreakKey, key: BreakKey, q: int)
    requires
        model.wf(),
        !model.closed,
        match input {
            EventInput::Invalidated { key: a, .. } => a == k,
            EventInput::AckCompleted { key: a, .. } => a == k,
            EventInput::AckDeadline { key: a, .. } => a == k,
            _ => false,
        },
        0 <= q < model.step(input).0.pending.len(),
        model.step(input).0.pending[q].key == key,
    ensures
        model.handles(key),
        model.step(input).0.pending[q].state == model.pending[model.position(key)].state || (key
            == k && model.step(input).0.pending[q].state is AckPending && model.state_of(key)
            == Some(BreakState::Received { ack_required: true }) && model.step(input).1 == seq![
            EventEffect::SendAck {
                key,
                deadline: model.step(input).0.pending[q].state->deadline,
            },
        ]),
{
    let next = model.step(input).0;
    if next.pending == model.pending {
        position_is_unique(model, key, q);
    } else {
        let p = model.position(k);
        assert(model.handles(k));
        assert(0 <= p < model.pending.len() && model.pending[p].key == k);
        if next.pending.len() < model.pending.len() {
            let r = if q < p {
                q
            } else {
                q + 1
            };
            assert(next.pending[q] == model.pending[r]);
            position_is_unique(model, key, r);
        } else {
            position_is_unique(model, key, q);
        }
    }
}

proof fn effects_are_of_the_history(model: EventModel, inputs: Seq<EventInput>, t: int)
    requires
        0 <= t < inputs.len() - 1,
    ensures
        effects_at(model, inputs.drop_last(), t) == effects_at(model, inputs, t),
{
    assert(inputs.drop_last().take(t) =~= inputs.take(t));
}

/// Every break that is being handled was received and invalidated before, and
/// acknowledged where that is under way.
proof fn handled_breaks_are_open(model: EventModel, inputs: Seq<EventInput>, key: BreakKey)
    requires
        model.wf(),
        model.pending.len() == 0,
    ensures
        lived(model, inputs).wf(),
        lived(model, inputs).policy == model.policy,
        lived(model, inputs).handles(key) ==> exists|i: int, ack_required: bool| {
            &&& #[trigger] opened_at(model, inputs, i, inputs.len() as int, key, ack_required)
            &&& match lived(model, inputs).state_of(key) {
                Some(BreakState::Received { ack_required: asked }) => asked == ack_required,
                Some(BreakState::AckPending { .. }) => ack_required && acknowledged_between(
                    model,
                    inputs,
                    i,
                    inputs.len() as int,
                    key,
                ),
                None => false,
            }
        },
    decreases inputs.len(),
{
    if inputs.len() > 0 {
        let earlier = inputs.drop_last();
        let n = inputs.len() - 1;
        let before = lived(model, earlier);
        handled_breaks_are_open(model, earlier, key);
        step_keeps_wf(before, inputs.last());
        let (after, effects) = before.step(inputs.last());
        assert(inputs.take(n) =~= earlier);
        assert(effects_at(model, inputs, n) == effects);
        if after.handles(key) {
            step_moves_break(before, inputs.last(), key);
            if effects == seq![EventEffect::Invalidate(key)] {
                let ack_required = inputs.last()->Receive_ack_required;
                assert(effects.contains(EventEffect::Invalidate(key))) by {
                    assert(effects[0] == EventEffect::Invalidate(key));
                }
                assert(invalidates(model, inputs, n, key));
                if before.handles(key) {
                    assert(before.step(inputs.last()).1.len() == 0);
                }
                assert(opened_at(model, inputs, n, n + 1, key, ack_required));
            } else {
                let (i, ack_required) = choose|i: int, ack_required: bool| {
                    &&& #[trigger] opened_at(model, earlier, i, n, key, ack_required)
                    &&& match before.state_of(key) {
                        Some(BreakState::Received { ack_required: asked }) => asked
                            == ack_required,
                        Some(BreakState::AckPending { .. }) => ack_required
                            && acknowledged_between(model, earlier, i, n, key),
                        None => false,
                    }
                };
                effects_are_of_the_history(model, inputs, i);
                assert(invalidates(model, inputs, i, key));
                assert forall|j: int| i < j < n + 1 implies !(#[trigger] invalidates(
                    model,
                    inputs,
                    j,
                    key,
                )) && !publishes(model, inputs, j, key) by {
                    if j < n {
                        effects_are_of_the_history(model, inputs, j);
                        assert(!invalidates(model, earlier, j, key));
                        if publishes(model, inputs, j, key) {
                            let ack = choose|ack: AckOutcome|
                                effects_at(model, inputs, j).contains(
                                    #[trigger] publication_of(key, ack),
                                );
                            assert(effects_at(model, earlier, j).contains(
                                publication_of(key, ack),
                            ));
                        }
                    } else {
                        if publishes(model, inputs, j, key) {
                            let ack = choose|ack: AckOutcome|
                                effects_at(model, inputs, j).contains(
                                    #[trigger] publication_of(key, ack),
                                );
                            invalidation_and_ack_precede_publication(
                                before,
                                inputs.last(),
                                key,
                                ack,
                            );
                        }
                        if invalidates(model, inputs, j, key) {
                            assert(effects =~= seq![EventEffect::Invalidate(key)]);
                        }
                    }
                }
                assert(opened_at(model, inputs, i, n + 1, key, ack_required));
                if before.state_of(key) matches Some(BreakState::AckPending { .. }) {
                    let a = choose|a: int|
                        i < a < n && #[trigger] acknowledges(model, earlier, a, key);
                    effects_are_of_the_history(model, inputs, a);
                    let deadline = choose|deadline: MonotonicTime|
                        effects_at(model, earlier, a).contains(#[trigger] ack_of(key, deadline));
                    assert(effects_at(model, inputs, a).contains(ack_of(key, deadline)));
                    assert(acknowledges(model, inputs, a, key));
                    assert(acknowledged_between(model, inputs, i, n + 1, key));
                } else if after.state_of(key) matches Some(BreakState::AckPending { .. }) {
                    let deadline = after.state_of(key)->0->deadline;
                    assert(effects[0] == ack_of(key, deadline));
                    assert(effects_at(model, inputs, n).contains(ack_of(key, deadline)));
                    assert(acknowledges(model, inputs, n, key));
                    assert(acknowledged_between(model, inputs, i, n + 1, key));
                }
            }
        }
    }
}

/// Over a whole history, every publication of a break follows its own
/// invalidation: the break was received and invalidated before, and neither
/// invalidated again nor published in between. Where its acknowledgement was
/// asked for, that was sent in between; where not, the publication says so.
pub proof fn publications_follow_their_invalidations(
    generation: GenerationId,
    policy: EventPolicy,
    inputs: Seq<EventInput>,
    t: int,
    key: BreakKey,
    ack: AckOutcome,
)
    requires
        0 <= t < inputs.len(),
        effects_at(EventModel::initial(generation, policy), inputs, t).contains(
            publication_of(key, ack),
        ),
    ensures
        exists|i: int, ack_required: bool| {
            &&& #[trigger] opened_at(
                EventModel::initial(generation, policy),
                inputs,
                i,
                t,
                key,
                ack_required,
            )
            &&& ack_required == (ack != AckOutcome::NotRequired)
            &&& ack_required ==> acknowledged_between(
                EventModel::initial(generation, policy),
                inputs,
                i,
                t,
                key,
            )
        },
{
    let model = EventModel::initial(generation, policy);
    let earlier = inputs.take(t);
    let before = lived(model, earlier);
    handled_breaks_are_open(model, earlier, key);
    invalidation_and_ack_precede_publication(before, inputs[t], key, ack);
    let (i, ack_required) = choose|i: int, ack_required: bool| {
        &&& #[trigger] opened_at(model, earlier, i, t, key, ack_required)
        &&& match before.state_of(key) {
            Some(BreakState::Received { ack_required: asked }) => asked == ack_required,
            Some(BreakState::AckPending { .. }) => ack_required && acknowledged_between(
                model,
                earlier,
                i,
                t,
                key,
            ),
            None => false,
        }
    };
    prefix_effects(model, inputs, t, i);
    assert(invalidates(model, inputs, i, key));
    assert forall|j: int| i < j < t implies !(#[trigger] invalidates(model, inputs, j, key))
        && !publishes(model, inputs, j, key) by {
        prefix_effects(model, inputs, t, j);
        assert(!invalidates(model, earlier, j, key));
        if publishes(model, inputs, j, key) {
            let ack = choose|ack: AckOutcome|
                effects_at(model, inputs, j).contains(#[trigger] publication_of(key, ack));
            assert(effects_at(model, earlier, j).contains(publication_of(key, ack)));
        }
    }
    assert(opened_at(model, inputs, i, t, key, ack_required));
    if ack_required {
        let a = choose|a: int| i < a < t && #[trigger] acknowledges(model, earlier, a, key);
        prefix_effects(model, inputs, t, a);
        let deadline = choose|deadline: MonotonicTime|
            effects_at(model, earlier, a).contains(#[trigger] ack_of(key, deadline));
        assert(effects_at(model, inputs, a).contains(ack_of(key, deadline)));
        assert(acknowledges(model, inputs, a, key));
    }
}

proof fn prefix_effects(model: EventModel, inputs: Seq<EventInput>, t: int, j: int)
    requires
        0 <= j < t <= inputs.len(),
    ensures
        effects_at(model, inputs.take(t), j) == effects_at(model, inputs, j),
{
    assert(inputs.take(t).take(j) =~= inputs.take(j));
}

/// Between two publications of a break lies an invalidation of it: at most one
/// publication lies between one invalidation and the next.
pub proof fn publications_are_parted_by_invalidations(
    generation: GenerationId,
    policy: EventPolicy,
    inputs: Seq<EventInput>,
    s: int,
    t: int,
    key: BreakKey,
)
    requires
        0 <= s < t < inputs.len(),
        publishes(EventModel::initial(generation, policy), inputs, s, key),
        publishes(EventModel::initial(generation, policy), inputs, t, key),
    ensures
        exists|i: int|
            s < i < t && #[trigger] invalidates(
                EventModel::initial(generation, policy),
                inputs,
                i,
                key,
            ),
{
    let model = EventModel::initial(generation, policy);
    let ack = choose|ack: AckOutcome|
        effects_at(model, inputs, t).contains(#[trigger] publication_of(key, ack));
    publications_follow_their_invalidations(generation, policy, inputs, t, key, ack);
    let (i, ack_required) = choose|i: int, ack_required: bool|
        #[trigger] opened_at(model, inputs, i, t, key, ack_required);
    if s > i {
        assert(!invalidates(model, inputs, s, key));
    } else if s == i {
        let first = choose|ack: AckOutcome|
            effects_at(model, inputs, s).contains(#[trigger] publication_of(key, ack));
        handled_breaks_are_open(model, inputs.take(s), key);
        step_keeps_wf(lived(model, inputs.take(s)), inputs[s]);
        let effects = effects_at(model, inputs, s);
        assert(effects.contains(EventEffect::Invalidate(key)));
        assert(effects.len() == 1);
    }
    assert(invalidates(model, inputs, i, key));
}

/// Over a whole history no more breaks are outstanding at a time than the
/// policy allows, and behind a close nothing happens any more.
pub proof fn histories_stay_bounded(
    generation: GenerationId,
    policy: EventPolicy,
    inputs: Seq<EventInput>,
    t: int,
)
    requires
        0 <= t < inputs.len(),
    ensures
        lived(EventModel::initial(generation, policy), inputs).pending.len() <= policy.capacity,
        lived(EventModel::initial(generation, policy), inputs.take(t)).closed ==> effects_at(
            EventModel::initial(generation, policy),
            inputs,
            t,
        ).len() == 0,
        (exists|c: int| 0 <= c < t && #[trigger] inputs[c] == EventInput::Close) ==> effects_at(
            EventModel::initial(generation, policy),
            inputs,
            t,
        ).len() == 0,
{
    let model = EventModel::initial(generation, policy);
    handled_breaks_are_open(
        model,
        inputs,
        BreakKey { generation, lease_key: 0, epoch: 0 },
    );
    if exists|c: int| 0 <= c < t && #[trigger] inputs[c] == EventInput::Close {
        let c = choose|c: int| 0 <= c < t && #[trigger] inputs[c] == EventInput::Close;
        assert(inputs.take(t)[c] == EventInput::Close);
        closes_for_good(model, inputs.take(t), c);
    }
}

proof fn closes_for_good(model: EventModel, inputs: Seq<EventInput>, c: int)
    requires
        0 <= c < inputs.len(),
        inputs[c] == EventInput::Close,
    ensures
        lived(model, inputs).closed,
    decreases inputs.len(),
{
    if c < inputs.len() - 1 {
        assert(inputs.drop_last()[c] == EventInput::Close);
        closes_for_good(model, inputs.drop_last(), c);
    }
}

/// A break of the current generation is taken once while there is room, and
/// is invalidated at once; one of another generation is ignored as stale, and
/// one that there is no room for is refused.
pub proof fn breaks_are_invalidated_at_once(model: EventModel, key: BreakKey, ack_required: bool)
    requires
        !model.closed,
    ensures
        ({
            let (next, effects) = model.step(EventInput::Receive { key, ack_required });
            let stale = key.generation != model.generation;
            let known = model.handles(key);
            let room = model.pending.len() < model.policy.capacity;
            &&& stale ==> effects == seq![EventEffect::IgnoreStale(key)]
            &&& !stale && known ==> effects == Seq::<EventEffect>::empty()
            &&& !stale && !known && !room ==> effects == seq![EventEffect::QueueFull(key)]
            &&& stale || known || !room ==> next == model
            &&& !stale && !known && room ==> {
                &&& effects == seq![EventEffect::Invalidate(key)]
                &&& next.pending.drop_last() == model.pending
                &&& next.pending.last().key == key
                &&& next.pending.last().state == (BreakState::Received { ack_required })
            }
        }),
{
    let (next, effects) = model.step(EventInput::Receive { key, ack_required });
    if next.pending.len() > model.pending.len() {
        assert(next.pending.drop_last() =~= model.pending);
    }
}

/// A break that was invalidated is acknowledged where the server asks for it,
/// within the time that the policy gives, and published at once where it does
/// not.
pub proof fn invalidated_breaks_are_acknowledged(
    model: EventModel,
    key: BreakKey,
    now: MonotonicTime,
)
    requires
        model.wf(),
        !model.closed,
    ensures
        ({
            let (next, effects) = model.step(EventInput::Invalidated { key, now });
            let deadline = now.plus(model.policy.ack_timeout);
            &&& model.state_of(key) == Some(BreakState::Received { ack_required: true }) ==> {
                &&& effects == seq![EventEffect::SendAck { key, deadline }]
                &&& next.state_of(key) == Some(BreakState::AckPending { deadline })
                &&& next.pending.len() == model.pending.len()
            }
            &&& model.state_of(key) == Some(BreakState::Received { ack_required: false }) ==> {
                &&& effects == seq![EventEffect::Publish { key, ack: AckOutcome::NotRequired }]
                &&& next.pending.len() == model.pending.len() - 1
            }
            &&& !(model.state_of(key) matches Some(BreakState::Received { .. })) ==> effects.len()
                == 0 && next == model
        }),
{
    let (next, effects) = model.step(EventInput::Invalidated { key, now });
    if model.state_of(key) == Some(BreakState::Received { ack_required: true }) {
        let p = model.position(key);
        step_keeps_wf(model, EventInput::Invalidated { key, now });
        position_is_unique(next, key, p);
    }
}

/// An acknowledgement that is under way ends as it is answered: accepted,
/// failed, or out of time once its deadline has come. The break is published
/// with that and is done. Where none is under way nothing happens.
pub proof fn acknowledgements_end_as_answered(
    model: EventModel,
    key: BreakKey,
    accepted: bool,
    now: MonotonicTime,
)
    requires
        !model.closed,
    ensures
        ({
            let (answered, told) = model.step(EventInput::AckCompleted { key, accepted });
            let (late, reported) = model.step(EventInput::AckDeadline { key, now });
            match model.state_of(key) {
                Some(BreakState::AckPending { deadline }) => {
                    &&& told == seq![
                        EventEffect::Publish {
                            key,
                            ack: if accepted {
                                AckOutcome::Accepted
                            } else {
                                AckOutcome::Failed
                            },
                        },
                    ]
                    &&& answered.pending.len() == model.pending.len() - 1
                    &&& now@ >= deadline@ ==> reported == seq![
                        EventEffect::Publish { key, ack: AckOutcome::TimedOut },
                    ] && late.pending.len() == model.pending.len() - 1
                    &&& now@ < deadline@ ==> reported.len() == 0 && late == model
                },
                _ => told.len() == 0 && reported.len() == 0 && answered == model && late == model,
            }
        }),
{
    if model.handles(key) {
        let p = model.position(key);
        assert(0 <= p < model.pending.len());
    }
}

/// A replaced generation drops the breaks of every other one, without a word.
/// A close drops them all, and says so once.
pub proof fn replaced_generations_drop_their_breaks(
    model: EventModel,
    generation: GenerationId,
    i: int,
)
    requires
        !model.closed,
        0 <= i < model.pending.len(),
    ensures
        ({
            let (next, effects) = model.step(EventInput::ReplaceGeneration(generation));
            let (closed, told) = model.step(EventInput::Close);
            &&& effects.len() == 0
            &&& next.generation == generation
            &&& !next.closed
            &&& next.policy == model.policy
            &&& next.pending.contains(model.pending[i]) <==> model.pending[i].key.generation
                == generation
            &&& told == seq![EventEffect::Closed]
            &&& closed.closed
            &&& closed.pending.len() == 0
        }),
{
    broadcast use vstd::seq_lib::group_filter_ensures;

    let keep = |entry: PendingBreak| entry.key.generation == generation;
    let kept = model.pending.filter(keep);
    if kept.contains(model.pending[i]) {
        let k = choose|k: int| 0 <= k < kept.len() && kept[k] == model.pending[i];
        assert(keep(kept[k]));
    }
    if keep(model.pending[i]) {
        assert(kept.contains(model.pending[i]));
    }
}

} // verus!
