//! Frames that wait for the wire, and the one that is being written.

use crate::clock::MonotonicTime;
use crate::runtime::reducer::RequestKey;
use std::collections::VecDeque;
use vstd::prelude::*;

verus! {

/// A sealed frame: it is named by its first request and may carry several.
#[derive(Debug)]
pub struct Frame {
    pub key: RequestKey,
    pub members: Vec<RequestKey>,
}

#[verifier::ext_equal]
pub struct FrameModel {
    pub key: RequestKey,
    pub members: Seq<RequestKey>,
}

impl View for Frame {
    type V = FrameModel;

    open spec fn view(&self) -> FrameModel {
        FrameModel { key: self.key, members: self.members@ }
    }
}

impl Frame {
    /// A frame that carries one request.
    pub fn single(key: RequestKey) -> (frame: Self)
        ensures
            frame@ == (FrameModel { key, members: seq![key] }),
    {
        let frame = Frame { key, members: vec![key] };
        assert(frame@ =~= FrameModel { key, members: seq![key] });
        frame
    }
}

#[verifier::ext_equal]
pub struct FramesModel {
    /// Frames that wait, first to be written first.
    pub queue: Seq<FrameModel>,
    /// The frame that is being written.
    pub active: Option<FrameModel>,
    /// When the frame that is being written was cancelled, if it was and
    /// nothing has been decided about it yet.
    pub deferred: Option<MonotonicTime>,
}

/// Whether a frame named `key` waits.
pub open spec fn waits(queue: Seq<FrameModel>, key: RequestKey) -> bool {
    exists|i: int| 0 <= i < queue.len() && (#[trigger] queue[i]).key == key
}

/// The place of the first frame named `key`, counted from the front.
pub open spec fn first_place(queue: Seq<FrameModel>, key: RequestKey) -> int
    decreases queue.len(),
{
    if queue.len() == 0 || queue[0].key == key {
        0
    } else {
        1 + first_place(queue.drop_first(), key)
    }
}

impl FramesModel {
    pub open spec fn empty() -> FramesModel {
        FramesModel { queue: Seq::empty(), active: None, deferred: None }
    }

    pub open spec fn writes(self, key: RequestKey) -> bool {
        self.active matches Some(frame) && frame.key == key
    }

    /// The requests that a report about the frame `key` is for.
    pub open spec fn members_of(self, key: RequestKey) -> Seq<RequestKey> {
        if self.writes(key) {
            self.active.unwrap().members
        } else {
            seq![key]
        }
    }

    /// When the frame `key` was cancelled, if that is still undecided.
    pub open spec fn deferred_for(self, key: RequestKey) -> Option<MonotonicTime> {
        if self.writes(key) {
            self.deferred
        } else {
            None
        }
    }

    pub open spec fn undeferred(self, key: RequestKey) -> FramesModel {
        if self.writes(key) {
            FramesModel { deferred: None, ..self }
        } else {
            self
        }
    }

    /// The frame `key` is no longer being written.
    pub open spec fn released(self, key: RequestKey) -> FramesModel {
        if self.writes(key) {
            FramesModel { active: None, deferred: None, ..self }
        } else {
            self
        }
    }
}

proof fn first_place_is_first(queue: Seq<FrameModel>, key: RequestKey)
    ensures
        0 <= first_place(queue, key) <= queue.len(),
        forall|i: int| 0 <= i < first_place(queue, key) ==> (#[trigger] queue[i]).key != key,
        first_place(queue, key) < queue.len() ==> queue[first_place(queue, key)].key == key,
        waits(queue, key) <==> first_place(queue, key) < queue.len(),
    decreases queue.len(),
{
    if queue.len() > 0 && queue[0].key != key {
        let rest = queue.drop_first();
        first_place_is_first(rest, key);
        assert forall|i: int| 0 <= i < first_place(queue, key) implies (
        #[trigger] queue[i]).key != key by {
            if i > 0 {
                assert(rest[i - 1] == queue[i]);
            }
        }
        if waits(queue, key) {
            let i = choose|i: int| 0 <= i < queue.len() && (#[trigger] queue[i]).key == key;
            assert(rest[i - 1].key == key);
        }
        if first_place(queue, key) < queue.len() {
            assert(queue[first_place(queue, key)].key == key);
        }
    } else if queue.len() > 0 {
        assert(queue[0].key == key);
    }
}

pub struct FrameQueue {
    queue: VecDeque<Frame>,
    active: Option<Frame>,
    deferred: Option<MonotonicTime>,
}

impl View for FrameQueue {
    type V = FramesModel;

    closed spec fn view(&self) -> FramesModel {
        FramesModel {
            queue: self.queue@.map_values(|frame: Frame| frame@),
            active: match self.active {
                Some(frame) => Some(frame@),
                None => None,
            },
            deferred: self.deferred,
        }
    }
}

impl FrameQueue {
    pub fn new() -> (frames: Self)
        ensures
            frames@ == FramesModel::empty(),
    {
        let frames = FrameQueue { queue: VecDeque::new(), active: None, deferred: None };
        assert(frames@ =~= FramesModel::empty());
        frames
    }

    pub fn push(&mut self, frame: Frame)
        ensures
            final(self)@ == (FramesModel { queue: old(self)@.queue.push(frame@), ..old(self)@ }),
    {
        self.queue.push_back(frame);
        assert(self@.queue =~= old(self)@.queue.push(frame@));
    }

    /// Takes the first frame named `key` out of the queue.
    pub fn withdraw(&mut self, key: RequestKey) -> (found: bool)
        ensures
            found == waits(old(self)@.queue, key),
            final(self)@ == if found {
                FramesModel {
                    queue: old(self)@.queue.remove(first_place(old(self)@.queue, key)),
                    ..old(self)@
                }
            } else {
                old(self)@
            },
    {
        let mut i: usize = 0;
        let ghost queue = self@.queue;
        proof {
            first_place_is_first(queue, key);
            assert(queue.skip(0) =~= queue);
        }
        while i < self.queue.len()
            invariant
                i <= self.queue@.len(),
                self@ == old(self)@,
                queue == self@.queue,
                queue == self.queue@.map_values(|frame: Frame| frame@),
                forall|k: int| 0 <= k < i ==> (#[trigger] queue[k]).key != key,
                0 <= first_place(queue, key) <= queue.len(),
                first_place(queue, key) < queue.len() ==> queue[first_place(queue, key)].key == key,
                forall|k: int|
                    0 <= k < first_place(queue, key) ==> (#[trigger] queue[k]).key != key,
                waits(queue, key) <==> first_place(queue, key) < queue.len(),
            decreases self.queue@.len() - i,
        {
            assert(queue[i as int] == self.queue@[i as int]@);
            if self.queue[i].key == key {
                assert(first_place(queue, key) == i);
                let _ = self.queue.remove(i);
                assert(self@.queue =~= queue.remove(i as int));
                return true;
            }
            i += 1;
        }
        false
    }

    pub fn is_writing(&self) -> (writing: bool)
        ensures
            writing == self@.active is Some,
    {
        self.active.is_some()
    }

    /// Whether the frame `key` is being written.
    pub fn writes(&self, key: RequestKey) -> (writes: bool)
        ensures
            writes == self@.writes(key),
    {
        match &self.active {
            Some(frame) => frame.key == key,
            None => false,
        }
    }

    /// Begins to write the first frame, unless one is being written, and
    /// returns its name.
    pub fn begin(&mut self) -> (key: Option<RequestKey>)
        ensures
            key is Some <==> old(self)@.active is None && old(self)@.queue.len() > 0,
            key matches Some(key) ==> key == old(self)@.queue[0].key,
            final(self)@ == if key is Some {
                FramesModel {
                    queue: old(self)@.queue.drop_first(),
                    active: Some(old(self)@.queue[0]),
                    deferred: None,
                }
            } else {
                old(self)@
            },
    {
        if self.active.is_some() {
            return None;
        }
        match self.queue.pop_front() {
            Some(frame) => {
                let key = frame.key;
                self.active = Some(frame);
                self.deferred = None;
                assert(self@.queue =~= old(self)@.queue.drop_first());
                Some(key)
            },
            None => {
                assert(self@.queue =~= old(self)@.queue);
                None
            },
        }
    }

    /// The requests that a report about the frame `key` is for.
    pub fn members_of(&self, key: RequestKey) -> (members: Vec<RequestKey>)
        ensures
            members@ == self@.members_of(key),
    {
        match &self.active {
            Some(frame) => {
                if frame.key == key {
                    let mut members: Vec<RequestKey> = Vec::new();
                    let mut i: usize = 0;
                    while i < frame.members.len()
                        invariant
                            i <= frame.members@.len(),
                            members@ == frame.members@.take(i as int),
                        decreases frame.members@.len() - i,
                    {
                        members.push(frame.members[i]);
                        i += 1;
                        assert(members@ =~= frame.members@.take(i as int));
                    }
                    assert(frame.members@.take(i as int) =~= frame.members@);
                    return members;
                }
            },
            None => {},
        }
        vec![key]
    }

    /// Remembers when the frame `key`, which is being written, was cancelled;
    /// the first time counts.
    pub fn defer(&mut self, key: RequestKey, now: MonotonicTime)
        requires
            old(self)@.writes(key),
        ensures
            final(self)@ == (FramesModel {
                deferred: match old(self)@.deferred {
                    Some(at) => Some(at),
                    None => Some(now),
                },
                ..old(self)@
            }),
    {
        if self.deferred.is_none() {
            self.deferred = Some(now);
        }
    }

    /// Takes the undecided cancellation of the frame `key`.
    pub fn take_deferred(&mut self, key: RequestKey) -> (at: Option<MonotonicTime>)
        ensures
            at == old(self)@.deferred_for(key),
            final(self)@ == old(self)@.undeferred(key),
    {
        if self.writes(key) {
            let at = self.deferred;
            self.deferred = None;
            at
        } else {
            None
        }
    }

    /// The frame `key` is no longer being written.
    pub fn release(&mut self, key: RequestKey)
        ensures
            final(self)@ == old(self)@.released(key),
    {
        if self.writes(key) {
            self.active = None;
            self.deferred = None;
        }
    }

    /// Drops the frames that wait and returns their names, in order.
    pub fn drop_queue(&mut self) -> (keys: Vec<RequestKey>)
        ensures
            keys@ == old(self)@.queue.map_values(|frame: FrameModel| frame.key),
            final(self)@ == (FramesModel { queue: Seq::empty(), ..old(self)@ }),
    {
        let mut keys: Vec<RequestKey> = Vec::new();
        let mut i: usize = 0;
        while i < self.queue.len()
            invariant
                i <= self.queue@.len(),
                self@ == old(self)@,
                self@.queue == self.queue@.map_values(|frame: Frame| frame@),
                keys@ == self@.queue.take(i as int).map_values(|frame: FrameModel| frame.key),
            decreases self.queue@.len() - i,
        {
            keys.push(self.queue[i].key);
            i += 1;
            proof {
                assert(keys@ =~= self@.queue.take(i as int).map_values(
                    |frame: FrameModel| frame.key,
                ));
            }
        }
        proof {
            assert(self@.queue.take(i as int) =~= self@.queue);
        }
        self.queue = VecDeque::new();
        assert(self@.queue =~= Seq::empty());
        keys
    }
}

} // verus!
