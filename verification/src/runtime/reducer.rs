//! Lifecycle of one request.
//!
//! A request carries four independent facts: what its caller was told, how
//! much of it reached the wire, what the server answered, and whether the wire
//! still owes an answer that nobody waits for (a tombstone). One event changes
//! them in one step, and at most one event ever publishes an outcome.

use vstd::prelude::*;

verus! {

/// Identity of one physical connection generation.
#[derive(Clone, Copy, Debug, PartialEq, Eq, Hash, Structural)]
pub struct GenerationId(pub u64);

impl GenerationId {
    pub fn new(value: u64) -> (id: Self)
        ensures
            id == GenerationId(value),
    {
        GenerationId(value)
    }

    /// The generation that follows this one, as long as identities are left.
    pub fn checked_next(self) -> (next: Option<GenerationId>)
        ensures
            next == if self.0 < u64::MAX {
                Some(GenerationId((self.0 + 1) as u64))
            } else {
                None::<GenerationId>
            },
    {
        match self.0.checked_add(1) {
            Some(value) => Some(GenerationId(value)),
            None => None,
        }
    }
}

/// Request identity is never meaningful without its generation.
#[derive(Clone, Copy, Debug, PartialEq, Eq, Hash, Structural)]
pub struct RequestKey {
    pub generation: GenerationId,
    pub message_id: u64,
}

impl RequestKey {
    pub fn new(generation: GenerationId, message_id: u64) -> (key: Self)
        ensures
            key == (RequestKey { generation, message_id }),
    {
        RequestKey { generation, message_id }
    }
}

#[derive(Clone, Copy, Debug, PartialEq, Eq, Structural)]
pub enum SendProgress {
    NotQueued,
    Queued,
    Partial { bytes: usize },
    Complete,
}

impl SendProgress {
    /// Whether at least one byte of the request may have reached the server.
    pub open spec fn is_committed(self) -> bool {
        self is Partial || self is Complete
    }

    pub fn committed(self) -> (committed: bool)
        ensures
            committed == self.is_committed(),
    {
        match self {
            SendProgress::Partial { .. } | SendProgress::Complete => true,
            SendProgress::NotQueued | SendProgress::Queued => false,
        }
    }
}

#[derive(Clone, Copy, Debug, PartialEq, Eq, Structural)]
pub enum ResponseProgress {
    NoResponse,
    AsyncPending { async_id: u64 },
    Final,
}

/// How a request ended for its caller.
#[derive(Clone, Copy, Debug, PartialEq, Eq, Structural)]
pub enum TerminalOutcome {
    Response,
    Cancelled,
    TimedOut,
    OutcomeUnknown,
    GenerationLost,
    PreparationFailed,
    SessionInvalidated,
}

#[derive(Clone, Copy, Debug, PartialEq, Eq, Structural)]
pub enum CallerOutcome {
    Open,
    Terminal(TerminalOutcome),
}

#[derive(Clone, Copy, Debug, PartialEq, Eq, Structural)]
pub enum RequestEvent {
    Queued,
    WriteProgress { bytes: usize },
    WriteComplete,
    AsyncPending { key: RequestKey, async_id: u64 },
    FinalResponse { key: RequestKey },
    Cancel,
    Deadline,
    Disconnect,
}

#[derive(Clone, Copy, Debug, PartialEq, Eq, Structural)]
pub enum ReduceEffect {
    NoEffect,
    Publish(TerminalOutcome),
    BookkeepingOnly,
    IgnoredForeignGeneration,
}

/// Orthogonal request facts owned and mutated only by the generation reducer.
#[derive(Clone, Copy, Debug, PartialEq, Eq, Structural)]
pub struct RequestRecord {
    pub key: RequestKey,
    pub caller: CallerOutcome,
    pub send: SendProgress,
    pub response: ResponseProgress,
    pub tombstone: bool,
}

/// The bytes written so far, counted up to the largest machine word.
pub open spec fn written(send: SendProgress, bytes: usize) -> usize {
    let previous = match send {
        SendProgress::Partial { bytes } => bytes,
        _ => 0usize,
    };
    if previous + bytes <= usize::MAX {
        (previous + bytes) as usize
    } else {
        usize::MAX
    }
}

impl RequestRecord {
    /// A request nobody has written, answered or given up yet.
    pub open spec fn fresh(key: RequestKey) -> RequestRecord {
        RequestRecord {
            key,
            caller: CallerOutcome::Open,
            send: SendProgress::NotQueued,
            response: ResponseProgress::NoResponse,
            tombstone: false,
        }
    }

    /// Facts that hold of every request in every state: an unanswered
    /// tombstone belongs to a request that reached the wire, whose caller was
    /// told an outcome, and whose final answer has not come.
    pub open spec fn consistent(self) -> bool {
        self.tombstone ==> self.send.is_committed() && self.caller != CallerOutcome::Open
            && self.response != ResponseProgress::Final
    }

    /// Tells an open caller the outcome; a caller that was told one keeps it.
    pub open spec fn published(self, outcome: TerminalOutcome) -> (RequestRecord, ReduceEffect) {
        if self.caller == CallerOutcome::Open {
            (
                RequestRecord { caller: CallerOutcome::Terminal(outcome), ..self },
                ReduceEffect::Publish(outcome),
            )
        } else {
            (self, ReduceEffect::BookkeepingOnly)
        }
    }

    /// Gives up waiting: the outcome is known unless bytes reached the wire,
    /// and then the wire keeps owing the final answer.
    pub open spec fn given_up(self, uncommitted: TerminalOutcome) -> (
        RequestRecord,
        ReduceEffect,
    ) {
        if self.send.is_committed() {
            (RequestRecord {
                tombstone: self.response != ResponseProgress::Final,
                ..self
            }).published(TerminalOutcome::OutcomeUnknown)
        } else {
            self.published(uncommitted)
        }
    }

    /// The request and the effect after `event`.
    pub open spec fn reduced(self, event: RequestEvent) -> (RequestRecord, ReduceEffect) {
        match event {
            RequestEvent::Queued => (
                RequestRecord {
                    send: if self.send == SendProgress::NotQueued {
                        SendProgress::Queued
                    } else {
                        self.send
                    },
                    ..self
                },
                ReduceEffect::NoEffect,
            ),
            RequestEvent::WriteProgress { bytes } => (
                RequestRecord {
                    send: if bytes > 0 && self.send != SendProgress::Complete {
                        SendProgress::Partial { bytes: written(self.send, bytes) }
                    } else {
                        self.send
                    },
                    ..self
                },
                ReduceEffect::NoEffect,
            ),
            RequestEvent::WriteComplete => (
                RequestRecord { send: SendProgress::Complete, ..self },
                ReduceEffect::NoEffect,
            ),
            RequestEvent::AsyncPending { key, async_id } => {
                if key.generation != self.key.generation {
                    (self, ReduceEffect::IgnoredForeignGeneration)
                } else if key != self.key || self.response == ResponseProgress::Final {
                    (self, ReduceEffect::BookkeepingOnly)
                } else {
                    (
                        RequestRecord {
                            response: ResponseProgress::AsyncPending { async_id },
                            ..self
                        },
                        ReduceEffect::BookkeepingOnly,
                    )
                }
            },
            RequestEvent::FinalResponse { key } => {
                if key.generation != self.key.generation {
                    (self, ReduceEffect::IgnoredForeignGeneration)
                } else if key != self.key {
                    (self, ReduceEffect::BookkeepingOnly)
                } else {
                    (RequestRecord {
                        response: ResponseProgress::Final,
                        tombstone: false,
                        ..self
                    }).published(TerminalOutcome::Response)
                }
            },
            RequestEvent::Cancel => self.given_up(TerminalOutcome::Cancelled),
            RequestEvent::Deadline => self.given_up(TerminalOutcome::TimedOut),
            RequestEvent::Disconnect => (RequestRecord { tombstone: false, ..self }).published(
                if self.send.is_committed() {
                    TerminalOutcome::OutcomeUnknown
                } else {
                    TerminalOutcome::GenerationLost
                },
            ),
        }
    }

    pub fn new(key: RequestKey) -> (record: Self)
        ensures
            record == RequestRecord::fresh(key),
            record.consistent(),
    {
        RequestRecord {
            key,
            caller: CallerOutcome::Open,
            send: SendProgress::NotQueued,
            response: ResponseProgress::NoResponse,
            tombstone: false,
        }
    }

    pub fn key(&self) -> (key: RequestKey)
        ensures
            key == self.key,
    {
        self.key
    }

    pub fn caller(&self) -> (caller: CallerOutcome)
        ensures
            caller == self.caller,
    {
        self.caller
    }

    pub fn send(&self) -> (send: SendProgress)
        ensures
            send == self.send,
    {
        self.send
    }

    pub fn response(&self) -> (response: ResponseProgress)
        ensures
            response == self.response,
    {
        self.response
    }

    pub fn is_tombstone(&self) -> (tombstone: bool)
        ensures
            tombstone == self.tombstone,
    {
        self.tombstone
    }

    pub fn caller_is_open(&self) -> (open: bool)
        ensures
            open == (self.caller == CallerOutcome::Open),
    {
        self.caller == CallerOutcome::Open
    }

    /// Whether the server may have seen part of the request.
    pub fn wire_committed(&self) -> (committed: bool)
        ensures
            committed == self.send.is_committed(),
    {
        self.send.committed()
    }

    /// An answer proves that the request reached the server, whatever the
    /// write side has reported so far.
    pub fn observe_response_commitment(&mut self)
        ensures
            *final(self) == old(self).answered(),
            old(self).consistent() ==> final(self).consistent(),
    {
        if !self.send.committed() {
            self.send = SendProgress::Complete;
        }
    }

    /// The request once any answer to it was seen.
    pub open spec fn answered(self) -> RequestRecord {
        RequestRecord {
            send: if self.send.is_committed() {
                self.send
            } else {
                SendProgress::Complete
            },
            ..self
        }
    }

    pub fn reduce(&mut self, event: RequestEvent) -> (effect: ReduceEffect)
        ensures
            (*final(self), effect) == old(self).reduced(event),
            old(self).consistent() ==> final(self).consistent(),
    {
        match event {
            RequestEvent::Queued => {
                if self.send == SendProgress::NotQueued {
                    self.send = SendProgress::Queued;
                }
                ReduceEffect::NoEffect
            },
            RequestEvent::WriteProgress { bytes } => {
                if bytes > 0 && self.send != SendProgress::Complete {
                    let previous: usize = match self.send {
                        SendProgress::Partial { bytes } => bytes,
                        _ => 0,
                    };
                    self.send = SendProgress::Partial { bytes: previous.saturating_add(bytes) };
                }
                ReduceEffect::NoEffect
            },
            RequestEvent::WriteComplete => {
                self.send = SendProgress::Complete;
                ReduceEffect::NoEffect
            },
            RequestEvent::AsyncPending { key, async_id } => {
                if key.generation != self.key.generation {
                    return ReduceEffect::IgnoredForeignGeneration;
                }
                if key != self.key || self.response == ResponseProgress::Final {
                    return ReduceEffect::BookkeepingOnly;
                }
                self.response = ResponseProgress::AsyncPending { async_id };
                ReduceEffect::BookkeepingOnly
            },
            RequestEvent::FinalResponse { key } => {
                if key.generation != self.key.generation {
                    return ReduceEffect::IgnoredForeignGeneration;
                }
                if key != self.key {
                    return ReduceEffect::BookkeepingOnly;
                }
                self.response = ResponseProgress::Final;
                self.tombstone = false;
                self.publish_once(TerminalOutcome::Response)
            },
            RequestEvent::Cancel => self.finish_without_response(TerminalOutcome::Cancelled),
            RequestEvent::Deadline => self.finish_without_response(TerminalOutcome::TimedOut),
            RequestEvent::Disconnect => {
                self.tombstone = false;
                if self.send.committed() {
                    self.publish_once(TerminalOutcome::OutcomeUnknown)
                } else {
                    self.publish_once(TerminalOutcome::GenerationLost)
                }
            },
        }
    }

    pub fn finish_without_response(&mut self, uncommitted: TerminalOutcome) -> (effect:
        ReduceEffect)
        ensures
            (*final(self), effect) == old(self).given_up(uncommitted),
            old(self).consistent() ==> final(self).consistent(),
    {
        if self.send.committed() {
            self.tombstone = self.response != ResponseProgress::Final;
            self.publish_once(TerminalOutcome::OutcomeUnknown)
        } else {
            self.publish_once(uncommitted)
        }
    }

    pub fn publish_once(&mut self, outcome: TerminalOutcome) -> (effect: ReduceEffect)
        ensures
            (*final(self), effect) == old(self).published(outcome),
    {
        if self.caller != CallerOutcome::Open {
            return ReduceEffect::BookkeepingOnly;
        }
        self.caller = CallerOutcome::Terminal(outcome);
        ReduceEffect::Publish(outcome)
    }
}

/// The request after a whole history of events, oldest first.
pub open spec fn replayed(record: RequestRecord, events: Seq<RequestEvent>) -> RequestRecord
    decreases events.len(),
{
    if events.len() == 0 {
        record
    } else {
        replayed(record, events.drop_last()).reduced(events.last()).0
    }
}

/// How many events of a history publish an outcome.
pub open spec fn publications(record: RequestRecord, events: Seq<RequestEvent>) -> nat
    decreases events.len(),
{
    if events.len() == 0 {
        0
    } else {
        let earlier = events.drop_last();
        publications(record, earlier) + if replayed(record, earlier).reduced(
            events.last(),
        ).1 is Publish {
            1nat
        } else {
            0nat
        }
    }
}

/// Whatever the order of responses, cancellations, deadlines and disconnects,
/// a request publishes at most one outcome, and it has published exactly one
/// as soon as its caller is no longer waiting.
pub proof fn outcome_is_published_at_most_once(key: RequestKey, events: Seq<RequestEvent>)
    ensures
        publications(RequestRecord::fresh(key), events) <= 1,
        publications(RequestRecord::fresh(key), events) == 1 <==> replayed(
            RequestRecord::fresh(key),
            events,
        ).caller != CallerOutcome::Open,
    decreases events.len(),
{
    if events.len() > 0 {
        outcome_is_published_at_most_once(key, events.drop_last());
    }
}

/// An outcome that was published never changes again.
pub proof fn published_outcome_is_kept(record: RequestRecord, event: RequestEvent)
    requires
        record.caller != CallerOutcome::Open,
    ensures
        record.reduced(event).0.caller == record.caller,
        !(record.reduced(event).1 is Publish),
{
}

/// Progress on the wire never goes back: a committed request stays committed,
/// and a final answer stays final.
pub proof fn wire_progress_is_monotonic(record: RequestRecord, event: RequestEvent)
    ensures
        record.send.is_committed() ==> record.reduced(event).0.send.is_committed(),
        record.send == SendProgress::Complete ==> record.reduced(event).0.send
            == SendProgress::Complete,
        record.response == ResponseProgress::Final ==> record.reduced(event).0.response
            == ResponseProgress::Final,
        record.reduced(event).0.key == record.key,
{
}

/// A request that never reached the wire is never reported as having an
/// unknown outcome and leaves no tombstone.
pub proof fn uncommitted_outcome_is_known(record: RequestRecord, event: RequestEvent)
    requires
        !record.send.is_committed(),
        !record.tombstone,
    ensures
        record.reduced(event).1 != ReduceEffect::Publish(TerminalOutcome::OutcomeUnknown),
        !record.reduced(event).0.tombstone,
{
}

/// An answer that names another request or another generation changes nothing.
pub proof fn foreign_answers_change_nothing(record: RequestRecord, key: RequestKey, async_id: u64)
    requires
        key != record.key,
    ensures
        record.reduced(RequestEvent::FinalResponse { key }).0 == record,
        record.reduced(RequestEvent::AsyncPending { key, async_id }).0 == record,
        key.generation != record.key.generation ==> record.reduced(
            RequestEvent::FinalResponse { key },
        ).1 == ReduceEffect::IgnoredForeignGeneration,
{
}

/// Each outcome has one cause. A response is published for the final answer
/// to this very request; a cancellation, a timeout or a lost connection only
/// where no byte reached the wire; and wherever one did, giving up or losing
/// the connection leaves the outcome unknown, whatever was heard of the
/// request before.
pub proof fn outcomes_have_their_causes(
    record: RequestRecord,
    event: RequestEvent,
    outcome: TerminalOutcome,
)
    ensures
        record.reduced(event).1 == ReduceEffect::Publish(outcome) <==> {
            let on_wire = record.send is Partial || record.send is Complete;
            &&& record.caller == CallerOutcome::Open
            &&& match outcome {
                TerminalOutcome::Response => event == (RequestEvent::FinalResponse {
                    key: record.key,
                }),
                TerminalOutcome::Cancelled => event == RequestEvent::Cancel && !on_wire,
                TerminalOutcome::TimedOut => event == RequestEvent::Deadline && !on_wire,
                TerminalOutcome::GenerationLost => event == RequestEvent::Disconnect && !on_wire,
                TerminalOutcome::OutcomeUnknown => on_wire && (event is Cancel || event is Deadline
                    || event is Disconnect),
                TerminalOutcome::PreparationFailed => false,
                TerminalOutcome::SessionInvalidated => false,
            }
        },
{
}

/// What is published is what the caller was told, and a caller is told
/// nothing that is not published.
pub proof fn publications_reach_the_caller(record: RequestRecord, event: RequestEvent)
    ensures
        record.reduced(event).1 matches ReduceEffect::Publish(outcome) ==> record.caller
            == CallerOutcome::Open && record.reduced(event).0.caller == CallerOutcome::Terminal(
            outcome,
        ),
        !(record.reduced(event).1 is Publish) ==> record.reduced(event).0.caller == record.caller,
{
}

/// A request that is given up while it is on the wire leaves a tombstone
/// until its final answer comes or its connection is lost; nothing else
/// leaves or removes one.
pub proof fn tombstones_wait_for_the_answer(record: RequestRecord, event: RequestEvent)
    ensures
        record.reduced(event).0.tombstone <==> {
            let on_wire = record.send is Partial || record.send is Complete;
            if on_wire && (event is Cancel || event is Deadline) {
                !(record.response is Final)
            } else {
                record.tombstone && !(event is Disconnect) && event
                    != (RequestEvent::FinalResponse { key: record.key })
            }
        },
{
}

/// Only the write side moves what is known of the write, and it tells nobody
/// anything.
pub proof fn writes_are_counted(record: RequestRecord, event: RequestEvent)
    ensures
        record.reduced(event).1 == ReduceEffect::NoEffect <==> (event is Queued
            || event is WriteProgress || event is WriteComplete),
        record.reduced(event).1 == ReduceEffect::NoEffect ==> record.reduced(event).0
            == (RequestRecord { send: record.reduced(event).0.send, ..record }),
        record.reduced(event).1 != ReduceEffect::NoEffect ==> record.reduced(event).0.send
            == record.send,
        event is WriteComplete ==> record.reduced(event).0.send == SendProgress::Complete,
        event is Queued ==> (record.reduced(event).0.send == SendProgress::Queued <==> record.send
            is NotQueued || record.send is Queued) && (!(record.send is NotQueued)
            ==> record.reduced(event).0.send == record.send),
        event == (RequestEvent::WriteProgress { bytes: 0 }) ==> record.reduced(event).0 == record,
        event matches RequestEvent::WriteProgress { bytes } ==> bytes > 0 ==> match record.send {
            SendProgress::Complete => record.reduced(event).0.send == SendProgress::Complete,
            SendProgress::Partial { bytes: earlier } => match record.reduced(event).0.send {
                SendProgress::Partial { bytes: all } => all == earlier + bytes || (all
                    == usize::MAX && earlier + bytes > usize::MAX),
                _ => false,
            },
            _ => record.reduced(event).0.send == (SendProgress::Partial { bytes }),
        },
{
}

/// Only answers to this very request change what is known of its answer: the
/// final one for good, an interim one as long as no final one came. An answer
/// that names another generation is told apart from one that does not.
pub proof fn answers_are_recorded(record: RequestRecord, event: RequestEvent)
    ensures
        record.reduced(event).0.response == (if event == (RequestEvent::FinalResponse {
            key: record.key,
        }) {
            ResponseProgress::Final
        } else if event is AsyncPending && event->AsyncPending_key == record.key && !(
        record.response is Final) {
            ResponseProgress::AsyncPending { async_id: event->async_id }
        } else {
            record.response
        }),
        record.reduced(event).1 == ReduceEffect::IgnoredForeignGeneration <==> {
            ||| event is AsyncPending && event->AsyncPending_key.generation
                != record.key.generation
            ||| event is FinalResponse && event->FinalResponse_key.generation
                != record.key.generation
        },
{
}

/// An answer proves that the request was sent as a whole, where nothing was
/// known to be sent, and changes nothing else.
pub proof fn answers_prove_the_write(record: RequestRecord)
    ensures
        record.answered() == (RequestRecord { send: record.answered().send, ..record }),
        record.send is Partial || record.send is Complete ==> record.answered() == record,
        record.send is NotQueued || record.send is Queued ==> record.answered().send
            == SendProgress::Complete,
{
}

/// A request that was made waits: nothing of it was written, answered or
/// given up.
pub proof fn fresh_requests_wait(key: RequestKey)
    ensures
        RequestRecord::fresh(key).key == key,
        RequestRecord::fresh(key).caller is Open,
        RequestRecord::fresh(key).send is NotQueued,
        RequestRecord::fresh(key).response is NoResponse,
        !RequestRecord::fresh(key).tombstone,
{
}

} // verus!
