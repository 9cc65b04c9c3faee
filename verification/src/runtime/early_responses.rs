//! Answers that arrive before the owner knows the operation they belong to.

use crate::protocol::{Command, Status};
use vstd::prelude::*;

verus! {

/// What the owner reads of a decoded response.
#[derive(Clone, Copy, Debug, PartialEq, Eq, Structural)]
pub struct ResponseFacts {
    pub message_id: u64,
    pub command: Command,
    pub status: Status,
    pub async_id: Option<u64>,
    pub credit_grant: u16,
    /// Whether the body is an error response.
    pub is_error: bool,
    /// Whether it only hints, unauthenticated, that the session is gone.
    pub recovery_hint: bool,
}

pub open spec fn held(responses: Seq<ResponseFacts>, message_id: u64) -> bool {
    exists|i: int| 0 <= i < responses.len() && (#[trigger] responses[i]).message_id == message_id
}

pub open spec fn held_at(responses: Seq<ResponseFacts>, message_id: u64) -> int {
    choose|i: int| 0 <= i < responses.len() && (#[trigger] responses[i]).message_id == message_id
}

pub open spec fn one_each(responses: Seq<ResponseFacts>) -> bool {
    forall|i: int, j: int|
        0 <= i < j < responses.len() ==> (#[trigger] responses[i]).message_id != (
        #[trigger] responses[j]).message_id
}

/// Holds a response; a second one for the same message takes its place.
pub open spec fn holding(responses: Seq<ResponseFacts>, facts: ResponseFacts) -> Seq<ResponseFacts> {
    if held(responses, facts.message_id) {
        responses.update(held_at(responses, facts.message_id), facts)
    } else {
        responses.push(facts)
    }
}

/// The responses without the one for a message.
pub open spec fn letting_go(responses: Seq<ResponseFacts>, message_id: u64) -> Seq<ResponseFacts> {
    if held(responses, message_id) {
        responses.remove(held_at(responses, message_id))
    } else {
        responses
    }
}

pub struct EarlyResponses {
    responses: Vec<ResponseFacts>,
}

impl View for EarlyResponses {
    type V = Seq<ResponseFacts>;

    closed spec fn view(&self) -> Seq<ResponseFacts> {
        self.responses@
    }
}

impl EarlyResponses {
    pub fn new() -> (early: Self)
        ensures
            early@ == Seq::<ResponseFacts>::empty(),
            one_each(early@),
    {
        EarlyResponses { responses: Vec::new() }
    }

    pub fn len(&self) -> (len: usize)
        ensures
            len == self@.len(),
    {
        self.responses.len()
    }

    fn find(&self, message_id: u64) -> (found: Option<usize>)
        requires
            one_each(self@),
        ensures
            found is Some == held(self@, message_id),
            found matches Some(i) ==> i < self@.len() && i == held_at(self@, message_id)
                && self@[i as int].message_id == message_id,
    {
        let mut i: usize = 0;
        while i < self.responses.len()
            invariant
                i <= self.responses@.len(),
                self@ == self.responses@,
                one_each(self@),
                forall|k: int| 0 <= k < i ==> (#[trigger] self.responses@[k]).message_id
                    != message_id,
            decreases self.responses@.len() - i,
        {
            if self.responses[i].message_id == message_id {
                proof {
                    assert(self@[i as int].message_id == message_id);
                    let p = held_at(self@, message_id);
                    if p < i {
                        assert(self@[p].message_id != self@[i as int].message_id);
                    } else if p > i {
                        assert(self@[i as int].message_id != self@[p].message_id);
                    }
                }
                return Some(i);
            }
            i += 1;
        }
        None
    }

    /// Holds a response and says whether one was held for the same message.
    pub fn hold(&mut self, facts: ResponseFacts) -> (duplicate: bool)
        requires
            one_each(old(self)@),
        ensures
            duplicate == held(old(self)@, facts.message_id),
            final(self)@ == holding(old(self)@, facts),
            one_each(final(self)@),
    {
        match self.find(facts.message_id) {
            Some(i) => {
                self.responses.set(i, facts);
                true
            },
            None => {
                self.responses.push(facts);
                false
            },
        }
    }

    /// Takes the response that is held for a message.
    pub fn take(&mut self, message_id: u64) -> (facts: Option<ResponseFacts>)
        requires
            one_each(old(self)@),
        ensures
            facts == if held(old(self)@, message_id) {
                Some(old(self)@[held_at(old(self)@, message_id)])
            } else {
                None::<ResponseFacts>
            },
            final(self)@ == letting_go(old(self)@, message_id),
            one_each(final(self)@),
    {
        match self.find(message_id) {
            Some(i) => Some(self.responses.remove(i)),
            None => None,
        }
    }
}

} // verus!
