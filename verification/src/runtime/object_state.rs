//! Generation-aware domain object authority.
//!
//! Objects form one tree per generation: connection, sessions, shares,
//! resources. A token names one object in one epoch of its life. The registry
//! commits hierarchy changes in one step, so nobody observes a partially
//! revoked or partially replaced dependency chain.

use crate::runtime::reducer::GenerationId;
use vstd::prelude::*;

verus! {

#[derive(Clone, Copy, Debug, PartialEq, Eq, Hash, Structural)]
pub struct ObjectToken {
    pub generation: GenerationId,
    pub id: u64,
    pub epoch: u64,
}

impl ObjectToken {
    pub fn generation(self) -> (generation: GenerationId)
        ensures
            generation == self.generation,
    {
        self.generation
    }

    /// The token as plain numbers: generation, id and epoch.
    pub fn identity(self) -> (identity: (u64, u64, u64))
        ensures
            identity == (self.generation.0, self.id, self.epoch),
    {
        (self.generation.0, self.id, self.epoch)
    }
}

#[derive(Clone, Copy, Debug, PartialEq, Eq, Structural)]
pub enum ObjectKind {
    Connection,
    Session,
    Share,
    Resource,
}

impl ObjectKind {
    /// The kind of object below which this kind may be created.
    pub open spec fn parent_kind(self) -> Option<ObjectKind> {
        match self {
            ObjectKind::Connection => None,
            ObjectKind::Session => Some(ObjectKind::Connection),
            ObjectKind::Share => Some(ObjectKind::Session),
            ObjectKind::Resource => Some(ObjectKind::Share),
        }
    }

    pub fn accepts_parent(self, parent: ObjectKind) -> (accepts: bool)
        ensures
            accepts == (self.parent_kind() == Some(parent)),
    {
        match (parent, self) {
            (ObjectKind::Connection, ObjectKind::Session) => true,
            (ObjectKind::Session, ObjectKind::Share) => true,
            (ObjectKind::Share, ObjectKind::Resource) => true,
            _ => false,
        }
    }
}

#[derive(Clone, Copy, Debug, PartialEq, Eq, Structural)]
pub enum ObjectPhase {
    Active,
    Recovering,
    Revoked,
    Closing,
    Closed,
}

impl ObjectPhase {
    /// Whether nothing can become of the object any more.
    pub open spec fn is_over(self) -> bool {
        self == ObjectPhase::Revoked || self == ObjectPhase::Closed
    }

    fn over(self) -> (over: bool)
        ensures
            over == self.is_over(),
    {
        self == ObjectPhase::Revoked || self == ObjectPhase::Closed
    }
}

#[derive(Clone, Copy, Debug, PartialEq, Eq, Structural)]
pub enum ObjectError {
    ForeignGeneration,
    Unknown,
    Stale,
    ParentNotActive,
    InvalidParent,
    IdExhausted,
}

#[derive(Clone, Copy, Debug, PartialEq, Eq, Structural)]
pub enum CloseDecision {
    OwnProtocolClose,
    AwaitExistingClose,
    AlreadyClosed,
}

#[derive(Clone, Copy, Debug, PartialEq, Eq, Structural)]
pub enum ObjectEffect {
    Revoked(ObjectToken),
    ReplacementPublished { previous: ObjectToken, replacement: ObjectToken },
}

#[derive(Clone, Copy, Debug, PartialEq, Eq, Structural)]
pub struct ObjectRecord {
    pub token: ObjectToken,
    pub kind: ObjectKind,
    pub parent: Option<ObjectToken>,
    pub phase: ObjectPhase,
}

/// The tree of objects of one generation; the object with id `i` is the `i`th
/// record.
#[verifier::ext_equal]
pub struct RegistryModel {
    pub generation: GenerationId,
    pub next_id: Option<u64>,
    pub records: Seq<ObjectRecord>,
    pub connection: ObjectToken,
}

/// Whether the `id`th object stands below `ancestor`, at any depth.
pub open spec fn descends(records: Seq<ObjectRecord>, id: int, ancestor: ObjectToken) -> bool
    decreases id,
{
    if 0 <= id < records.len() && records[id].parent is Some {
        let parent = records[id].parent.unwrap();
        parent == ancestor || (parent.id < id && descends(records, parent.id as int, ancestor))
    } else {
        false
    }
}

/// Whether the `id`th object and everything above it are active.
pub open spec fn live(records: Seq<ObjectRecord>, id: int) -> bool
    decreases id,
{
    &&& 0 <= id < records.len()
    &&& records[id].phase == ObjectPhase::Active
    &&& records[id].parent matches Some(parent) ==> parent.id < id && live(
        records,
        parent.id as int,
    )
}

/// The records with every object selected by `doomed` revoked, unless it was
/// over already.
pub open spec fn revoked(
    records: Seq<ObjectRecord>,
    doomed: spec_fn(int) -> bool,
) -> Seq<ObjectRecord> {
    Seq::new(
        records.len(),
        |i: int|
            if doomed(i) && !records[i].phase.is_over() {
                ObjectRecord { phase: ObjectPhase::Revoked, ..records[i] }
            } else {
                records[i]
            },
    )
}

/// One effect for each object that `revoked` changes among the first `n`, by
/// ascending id.
pub open spec fn revocations(
    records: Seq<ObjectRecord>,
    doomed: spec_fn(int) -> bool,
    n: nat,
) -> Seq<ObjectEffect>
    decreases n,
{
    if n == 0 {
        Seq::empty()
    } else {
        let i = n - 1;
        let earlier = revocations(records, doomed, i as nat);
        if doomed(i) && !records[i].phase.is_over() {
            earlier.push(ObjectEffect::Revoked(records[i].token))
        } else {
            earlier
        }
    }
}

impl RegistryModel {
    pub open spec fn initial(generation: GenerationId) -> RegistryModel {
        let connection = ObjectToken { generation, id: 0, epoch: 0 };
        RegistryModel {
            generation,
            next_id: Some(1),
            records: seq![
                ObjectRecord {
                    token: connection,
                    kind: ObjectKind::Connection,
                    parent: None,
                    phase: ObjectPhase::Active,
                },
            ],
            connection,
        }
    }

    /// Facts about the `i`th object: it is named by its place, and its parent
    /// is the current token of an earlier object of the kind above.
    pub open spec fn record_ok(self, i: int) -> bool {
        let record = self.records[i];
        &&& record.token.generation == self.generation
        &&& record.token.id == i
        &&& match record.parent {
            None => i == 0 && record.kind == ObjectKind::Connection,
            Some(parent) => {
                &&& parent.id < i
                &&& parent == self.records[parent.id as int].token
                &&& record.kind.parent_kind() == Some(self.records[parent.id as int].kind)
            },
        }
    }

    pub open spec fn wf(self) -> bool {
        &&& self.records.len() >= 1
        &&& forall|i: int| 0 <= i < self.records.len() ==> #[trigger] self.record_ok(i)
        &&& match self.next_id {
            Some(next) => next == self.records.len(),
            None => self.records.len() > u64::MAX,
        }
        &&& self.connection == (ObjectToken { generation: self.generation, id: 0, epoch: 0 })
    }

    /// Why a token names no current object, if it does not.
    pub open spec fn lookup(self, token: ObjectToken) -> Result<ObjectRecord, ObjectError> {
        if token.generation != self.generation {
            Err(ObjectError::ForeignGeneration)
        } else if token.id >= self.records.len() {
            Err(ObjectError::Unknown)
        } else if self.records[token.id as int].token != token {
            Err(ObjectError::Stale)
        } else {
            Ok(self.records[token.id as int])
        }
    }

    pub open spec fn with_phase(self, id: u64, phase: ObjectPhase) -> RegistryModel {
        RegistryModel {
            records: self.records.update(
                id as int,
                ObjectRecord { phase, ..self.records[id as int] },
            ),
            ..self
        }
    }

    pub open spec fn with_child(self, parent: ObjectToken, kind: ObjectKind) -> (
        RegistryModel,
        Result<ObjectToken, ObjectError>,
    ) {
        match self.lookup(parent) {
            Err(error) => (self, Err(error)),
            Ok(record) => {
                if kind.parent_kind() != Some(record.kind) {
                    (self, Err(ObjectError::InvalidParent))
                } else if record.phase != ObjectPhase::Active {
                    (self, Err(ObjectError::ParentNotActive))
                } else if self.next_id is None {
                    (self, Err(ObjectError::IdExhausted))
                } else {
                    let id = self.next_id.unwrap();
                    let token = ObjectToken { generation: self.generation, id, epoch: 0 };
                    (
                        RegistryModel {
                            next_id: if id < u64::MAX {
                                Some((id + 1) as u64)
                            } else {
                                None
                            },
                            records: self.records.push(
                                ObjectRecord {
                                    token,
                                    kind,
                                    parent: Some(parent),
                                    phase: ObjectPhase::Active,
                                },
                            ),
                            ..self
                        },
                        Ok(token),
                    )
                }
            },
        }
    }

    /// Whether a token names an object that is active with all above it.
    pub open spec fn validated(self, token: ObjectToken) -> Result<(), ObjectError> {
        match self.lookup(token) {
            Err(error) => Err(error),
            Ok(_) => if live(self.records, token.id as int) {
                Ok(())
            } else {
                Err(ObjectError::ParentNotActive)
            },
        }
    }

    /// An object in recovery gets a new epoch, and its children follow.
    pub open spec fn replaced(self, token: ObjectToken) -> (
        RegistryModel,
        Result<ObjectEffect, ObjectError>,
    ) {
        match self.lookup(token) {
            Err(error) => (self, Err(error)),
            Ok(record) => {
                if record.phase != ObjectPhase::Recovering {
                    (self, Err(ObjectError::ParentNotActive))
                } else if token.epoch == u64::MAX {
                    (self, Err(ObjectError::IdExhausted))
                } else {
                    let replacement = ObjectToken { epoch: (token.epoch + 1) as u64, ..token };
                    (
                        RegistryModel {
                            records: self.renewed(token, replacement),
                            ..self
                        },
                        Ok(ObjectEffect::ReplacementPublished { previous: token, replacement }),
                    )
                }
            },
        }
    }

    pub open spec fn renewed(self, token: ObjectToken, replacement: ObjectToken) -> Seq<
        ObjectRecord,
    > {
        Seq::new(
            self.records.len(),
            |i: int|
                if i == token.id {
                    ObjectRecord {
                        token: replacement,
                        phase: ObjectPhase::Active,
                        ..self.records[i]
                    }
                } else if self.records[i].parent == Some(token) {
                    ObjectRecord { parent: Some(replacement), ..self.records[i] }
                } else {
                    self.records[i]
                },
        )
    }

    /// Revokes everything below `ancestor`.
    pub open spec fn subtree_revoked(self, ancestor: ObjectToken) -> (
        RegistryModel,
        Seq<ObjectEffect>,
    ) {
        let below = |i: int| descends(self.records, i, ancestor);
        (
            RegistryModel { records: revoked(self.records, below), ..self },
            revocations(self.records, below, self.records.len()),
        )
    }

    pub open spec fn replaced_alone(self, token: ObjectToken) -> (
        RegistryModel,
        Result<(ObjectEffect, Seq<ObjectEffect>), ObjectError>,
    ) {
        match self.replaced(token) {
            (next, Err(error)) => (next, Err(error)),
            (next, Ok(effect)) => {
                let (last, effects) = next.subtree_revoked(effect->replacement);
                (last, Ok((effect, effects)))
            },
        }
    }

    /// A recovery that failed: the object and everything below it is revoked.
    pub open spec fn recovery_failed(self, token: ObjectToken) -> (
        RegistryModel,
        Result<Seq<ObjectEffect>, ObjectError>,
    ) {
        match self.lookup(token) {
            Err(error) => (self, Err(error)),
            Ok(record) => if record.phase != ObjectPhase::Recovering {
                (self, Err(ObjectError::ParentNotActive))
            } else {
                let (next, effects) = self.subtree_revoked(token);
                (
                    next.with_phase(token.id, ObjectPhase::Revoked),
                    Ok(seq![ObjectEffect::Revoked(token)] + effects),
                )
            },
        }
    }

    pub open spec fn close_begun(self, token: ObjectToken) -> (
        RegistryModel,
        Result<CloseDecision, ObjectError>,
    ) {
        match self.lookup(token) {
            Err(error) => (self, Err(error)),
            Ok(record) => match record.phase {
                ObjectPhase::Active | ObjectPhase::Recovering => (
                    self.with_phase(token.id, ObjectPhase::Closing),
                    Ok(CloseDecision::OwnProtocolClose),
                ),
                ObjectPhase::Closing => (self, Ok(CloseDecision::AwaitExistingClose)),
                ObjectPhase::Revoked | ObjectPhase::Closed => (
                    self,
                    Ok(CloseDecision::AlreadyClosed),
                ),
            },
        }
    }

    pub open spec fn close_completed(self, token: ObjectToken) -> (
        RegistryModel,
        Result<Seq<ObjectEffect>, ObjectError>,
    ) {
        match self.lookup(token) {
            Err(error) => (self, Err(error)),
            Ok(_) => {
                let (next, effects) = self.subtree_revoked(token);
                (next.with_phase(token.id, ObjectPhase::Closed), Ok(effects))
            },
        }
    }

    /// Revokes every object.
    pub open spec fn lost(self) -> (RegistryModel, Seq<ObjectEffect>) {
        let every = |i: int| true;
        (
            RegistryModel { records: revoked(self.records, every), ..self },
            revocations(self.records, every, self.records.len()),
        )
    }
}

/// Changing phases keeps the tree well-formed.
pub proof fn phases_keep_wf(model: RegistryModel, next: RegistryModel)
    requires
        model.wf(),
        next.generation == model.generation,
        next.next_id == model.next_id,
        next.connection == model.connection,
        next.records.len() == model.records.len(),
        forall|i: int|
            0 <= i < model.records.len() ==> (#[trigger] next.records[i]).token
                == model.records[i].token && next.records[i].kind == model.records[i].kind
                && next.records[i].parent == model.records[i].parent,
    ensures
        next.wf(),
{
    assert forall|i: int| 0 <= i < next.records.len() implies #[trigger] next.record_ok(i) by {
        assert(model.record_ok(i));
        if model.records[i].parent is Some {
            let above = model.records[i].parent.unwrap().id as int;
            assert(next.records[above].token == model.records[above].token);
        }
    }
}

/// Whether an object stands below another depends on the parents alone.
pub proof fn lineage_decides_descent(
    a: Seq<ObjectRecord>,
    b: Seq<ObjectRecord>,
    id: int,
    ancestor: ObjectToken,
)
    requires
        a.len() == b.len(),
        forall|i: int| 0 <= i < a.len() ==> (#[trigger] b[i]).parent == a[i].parent,
    ensures
        descends(a, id, ancestor) == descends(b, id, ancestor),
    decreases id,
{
    if 0 <= id < a.len() && a[id].parent is Some {
        assert(b[id].parent == a[id].parent);
        let parent = a[id].parent.unwrap();
        if parent.id < id {
            lineage_decides_descent(a, b, parent.id as int, ancestor);
        }
    }
}

pub struct ObjectRegistry {
    generation: GenerationId,
    next_id: Option<u64>,
    records: Vec<ObjectRecord>,
    connection: ObjectToken,
}

impl View for ObjectRegistry {
    type V = RegistryModel;

    closed spec fn view(&self) -> RegistryModel {
        RegistryModel {
            generation: self.generation,
            next_id: self.next_id,
            records: self.records@,
            connection: self.connection,
        }
    }
}

impl ObjectRegistry {
    pub fn new(generation: GenerationId) -> (registry: Self)
        ensures
            registry@ == RegistryModel::initial(generation),
            registry@.wf(),
    {
        let connection = ObjectToken { generation, id: 0, epoch: 0 };
        let registry = ObjectRegistry {
            generation,
            next_id: Some(1),
            records: vec![
                ObjectRecord {
                    token: connection,
                    kind: ObjectKind::Connection,
                    parent: None,
                    phase: ObjectPhase::Active,
                },
            ],
            connection,
        };
        assert(registry@ =~= RegistryModel::initial(generation));
        registry
    }

    pub fn connection(&self) -> (connection: ObjectToken)
        ensures
            connection == self@.connection,
    {
        self.connection
    }

    /// The record that a token names.
    pub fn record(&self, token: ObjectToken) -> (record: Result<ObjectRecord, ObjectError>)
        ensures
            record == self@.lookup(token),
    {
        if token.generation != self.generation {
            return Err(ObjectError::ForeignGeneration);
        }
        let place: usize = match self.place(token.id) {
            Some(place) => place,
            None => {
                return Err(ObjectError::Unknown);
            },
        };
        let record = self.records[place];
        if record.token != token {
            return Err(ObjectError::Stale);
        }
        Ok(record)
    }

    fn place(&self, id: u64) -> (place: Option<usize>)
        ensures
            place == if id < self@.records.len() {
                Some(id as usize)
            } else {
                None::<usize>
            },
            place matches Some(p) ==> p == id,
    {
        if (id as u128) < self.records.len() as u128 {
            Some(id as usize)
        } else {
            None
        }
    }

    pub fn create_child(&mut self, parent: ObjectToken, kind: ObjectKind) -> (child: Result<
        ObjectToken,
        ObjectError,
    >)
        requires
            old(self)@.wf(),
        ensures
            (final(self)@, child) == old(self)@.with_child(parent, kind),
            final(self)@.wf(),
    {
        let record = match self.record(parent) {
            Ok(record) => record,
            Err(error) => {
                return Err(error);
            },
        };
        if !kind.accepts_parent(record.kind) {
            return Err(ObjectError::InvalidParent);
        }
        if record.phase != ObjectPhase::Active {
            return Err(ObjectError::ParentNotActive);
        }
        let id: u64 = match self.next_id {
            Some(id) => id,
            None => {
                return Err(ObjectError::IdExhausted);
            },
        };
        self.next_id = id.checked_add(1);
        let token = ObjectToken { generation: self.generation, id, epoch: 0 };
        self.records.push(
            ObjectRecord { token, kind, parent: Some(parent), phase: ObjectPhase::Active },
        );
        proof {
            assert forall|i: int| 0 <= i < self@.records.len() implies #[trigger] self@.record_ok(
                i,
            ) by {
                if i < old(self)@.records.len() {
                    assert(old(self)@.record_ok(i));
                }
            }
        }
        Ok(token)
    }

    pub fn validate_active(&self, token: ObjectToken) -> (valid: Result<(), ObjectError>)
        requires
            self@.wf(),
        ensures
            valid == self@.validated(token),
    {
        match self.record(token) {
            Ok(_) => {},
            Err(error) => {
                return Err(error);
            },
        }
        assert(self.records.len() == self@.records.len());
        let mut place: usize = token.id as usize;
        loop
            invariant
                place < self@.records.len(),
                self@.wf(),
                self@.records == self.records@,
                live(self@.records, token.id as int) == live(self@.records, place as int),
                self@.lookup(token) is Ok,
            decreases place,
        {
            proof {
                assert(self@.record_ok(place as int));
            }
            let record = self.records[place];
            if record.phase != ObjectPhase::Active {
                return Err(ObjectError::ParentNotActive);
            }
            match record.parent {
                Some(parent) => {
                    place = parent.id as usize;
                },
                None => {
                    return Ok(());
                },
            }
        }
    }

    /// Replaces the phase of the object with id `id`.
    fn set_phase(&mut self, id: u64, phase: ObjectPhase)
        requires
            old(self)@.wf(),
            id < old(self)@.records.len(),
        ensures
            final(self)@ == old(self)@.with_phase(id, phase),
            final(self)@.wf(),
    {
        assert(self.records.len() == self@.records.len());
        let place: usize = id as usize;
        let mut record = self.records[place];
        record.phase = phase;
        self.records.set(place, record);
        proof {
            phases_keep_wf(old(self)@, self@);
        }
    }

    pub fn begin_recovery(&mut self, token: ObjectToken) -> (begun: Result<(), ObjectError>)
        requires
            old(self)@.wf(),
        ensures
            begun == old(self)@.validated(token),
            final(self)@ == if begun is Ok {
                old(self)@.with_phase(token.id, ObjectPhase::Recovering)
            } else {
                old(self)@
            },
            final(self)@.wf(),
    {
        match self.validate_active(token) {
            Ok(()) => {
                self.set_phase(token.id, ObjectPhase::Recovering);
                Ok(())
            },
            Err(error) => Err(error),
        }
    }

    pub fn publish_replacement(&mut self, token: ObjectToken) -> (effect: Result<
        ObjectEffect,
        ObjectError,
    >)
        requires
            old(self)@.wf(),
        ensures
            (final(self)@, effect) == old(self)@.replaced(token),
            final(self)@.wf(),
    {
        let record = match self.record(token) {
            Ok(record) => record,
            Err(error) => {
                return Err(error);
            },
        };
        if record.phase != ObjectPhase::Recovering {
            return Err(ObjectError::ParentNotActive);
        }
        let epoch: u64 = match token.epoch.checked_add(1) {
            Some(epoch) => epoch,
            None => {
                return Err(ObjectError::IdExhausted);
            },
        };
        let replacement = ObjectToken { generation: token.generation, id: token.id, epoch };
        let mut i: usize = 0;
        while i < self.records.len()
            invariant
                i <= self.records@.len(),
                self.records@.len() == old(self)@.records.len(),
                self@ == (RegistryModel { records: self.records@, ..old(self)@ }),
                forall|j: int|
                    0 <= j < i ==> #[trigger] self.records@[j] == old(self)@.renewed(
                        token,
                        replacement,
                    )[j],
                forall|j: int|
                    i <= j < self.records@.len() ==> #[trigger] self.records@[j] == old(
                        self,
                    )@.records[j],
            decreases self.records@.len() - i,
        {
            let mut entry = self.records[i];
            if i as u64 == token.id {
                entry.token = replacement;
                entry.phase = ObjectPhase::Active;
                self.records.set(i, entry);
            } else if entry.parent == Some(token) {
                entry.parent = Some(replacement);
                self.records.set(i, entry);
            }
            i += 1;
        }
        proof {
            assert(self@.records =~= old(self)@.renewed(token, replacement));
            assert forall|j: int| 0 <= j < self@.records.len() implies #[trigger] self@.record_ok(
                j,
            ) by {
                assert(old(self)@.record_ok(j));
            }
        }
        Ok(ObjectEffect::ReplacementPublished { previous: token, replacement })
    }

    /// Whether the object named by `candidate` stands below `ancestor`.
    pub fn is_descendant(&self, candidate: ObjectToken, ancestor: ObjectToken) -> (below: bool)
        requires
            self@.wf(),
        ensures
            below == descends(self@.records, candidate.id as int, ancestor),
    {
        let mut place: usize = match self.place(candidate.id) {
            Some(place) => place,
            None => {
                return false;
            },
        };
        loop
            invariant
                place < self@.records.len(),
                self@.wf(),
                self@.records == self.records@,
                descends(self@.records, candidate.id as int, ancestor) == descends(
                    self@.records,
                    place as int,
                    ancestor,
                ),
            decreases place,
        {
            proof {
                assert(self@.record_ok(place as int));
            }
            match self.records[place].parent {
                Some(parent) => {
                    if parent == ancestor {
                        return true;
                    }
                    place = parent.id as usize;
                },
                None => {
                    return false;
                },
            }
        }
    }

    /// Revokes everything below `ancestor`; the effects come by ascending id.
    pub fn revoke_descendants(&mut self, ancestor: ObjectToken) -> (effects: Vec<ObjectEffect>)
        requires
            old(self)@.wf(),
        ensures
            (final(self)@, effects@) == old(self)@.subtree_revoked(ancestor),
            final(self)@.wf(),
    {
        let ghost below = |i: int| descends(old(self)@.records, i, ancestor);
        let mut effects: Vec<ObjectEffect> = Vec::new();
        let mut i: usize = 0;
        while i < self.records.len()
            invariant
                i <= self.records@.len(),
                self.records@.len() == old(self)@.records.len(),
                self@ == (RegistryModel { records: self.records@, ..old(self)@ }),
                self@.wf(),
                below == (|k: int| descends(old(self)@.records, k, ancestor)),
                effects@ == revocations(old(self)@.records, below, i as nat),
                forall|j: int|
                    0 <= j < i ==> #[trigger] self.records@[j] == revoked(
                        old(self)@.records,
                        below,
                    )[j],
                forall|j: int|
                    i <= j < self.records@.len() ==> #[trigger] self.records@[j] == old(
                        self,
                    )@.records[j],
                forall|j: int|
                    0 <= j < self.records@.len() ==> (#[trigger] self.records@[j]).parent == old(
                        self,
                    )@.records[j].parent,
            decreases self.records@.len() - i,
        {
            let record = self.records[i];
            let ghost before = self@;
            proof {
                assert(before.record_ok(i as int));
                lineage_decides_descent(old(self)@.records, before.records, i as int, ancestor);
            }
            if self.is_descendant(record.token, ancestor) && !record.phase.over() {
                self.set_phase(record.token.id, ObjectPhase::Revoked);
                effects.push(ObjectEffect::Revoked(record.token));
            }
            i += 1;
        }
        proof {
            assert(self@.records =~= revoked(old(self)@.records, below));
        }
        effects
    }

    pub fn publish_replacement_revoking_descendants(&mut self, token: ObjectToken) -> (effects:
        Result<(ObjectEffect, Vec<ObjectEffect>), ObjectError>)
        requires
            old(self)@.wf(),
        ensures
            final(self)@ == old(self)@.replaced_alone(token).0,
            match (effects, old(self)@.replaced_alone(token).1) {
                (Ok(told), Ok(expected)) => told.0 == expected.0 && told.1@ == expected.1,
                (Err(told), Err(expected)) => told == expected,
                _ => false,
            },
            final(self)@.wf(),
    {
        match self.publish_replacement(token) {
            Ok(effect) => {
                let current = match effect {
                    ObjectEffect::ReplacementPublished { replacement, .. } => replacement,
                    ObjectEffect::Revoked(revoked) => revoked,
                };
                let revoked = self.revoke_descendants(current);
                Ok((effect, revoked))
            },
            Err(error) => Err(error),
        }
    }

    /// Gives up the recovery of an object: it and everything below it is
    /// revoked.
    pub fn fail_recovery(&mut self, token: ObjectToken) -> (effects: Result<
        Vec<ObjectEffect>,
        ObjectError,
    >)
        requires
            old(self)@.wf(),
        ensures
            final(self)@ == old(self)@.recovery_failed(token).0,
            match (effects, old(self)@.recovery_failed(token).1) {
                (Ok(told), Ok(expected)) => told@ == expected,
                (Err(told), Err(expected)) => told == expected,
                _ => false,
            },
            final(self)@.wf(),
    {
        let record = match self.record(token) {
            Ok(record) => record,
            Err(error) => {
                return Err(error);
            },
        };
        if record.phase != ObjectPhase::Recovering {
            return Err(ObjectError::ParentNotActive);
        }
        let mut below = self.revoke_descendants(token);
        self.set_phase(token.id, ObjectPhase::Revoked);
        let mut effects = vec![ObjectEffect::Revoked(token)];
        effects.append(&mut below);
        Ok(effects)
    }

    pub fn begin_close(&mut self, token: ObjectToken) -> (decision: Result<
        CloseDecision,
        ObjectError,
    >)
        requires
            old(self)@.wf(),
        ensures
            (final(self)@, decision) == old(self)@.close_begun(token),
            final(self)@.wf(),
    {
        let record = match self.record(token) {
            Ok(record) => record,
            Err(error) => {
                return Err(error);
            },
        };
        match record.phase {
            ObjectPhase::Active | ObjectPhase::Recovering => {
                self.set_phase(token.id, ObjectPhase::Closing);
                Ok(CloseDecision::OwnProtocolClose)
            },
            ObjectPhase::Closing => Ok(CloseDecision::AwaitExistingClose),
            ObjectPhase::Revoked | ObjectPhase::Closed => Ok(CloseDecision::AlreadyClosed),
        }
    }

    pub fn complete_close(&mut self, token: ObjectToken) -> (effects: Result<
        Vec<ObjectEffect>,
        ObjectError,
    >)
        requires
            old(self)@.wf(),
        ensures
            final(self)@ == old(self)@.close_completed(token).0,
            match (effects, old(self)@.close_completed(token).1) {
                (Ok(told), Ok(expected)) => told@ == expected,
                (Err(told), Err(expected)) => told == expected,
                _ => false,
            },
            final(self)@.wf(),
    {
        match self.record(token) {
            Ok(_) => {},
            Err(error) => {
                return Err(error);
            },
        }
        let effects = self.revoke_descendants(token);
        self.set_phase(token.id, ObjectPhase::Closed);
        Ok(effects)
    }

    /// Revokes every object of the generation.
    pub fn lose_generation(&mut self) -> (effects: Vec<ObjectEffect>)
        requires
            old(self)@.wf(),
        ensures
            (final(self)@, effects@) == old(self)@.lost(),
            final(self)@.wf(),
    {
        let ghost every = |i: int| true;
        let mut effects: Vec<ObjectEffect> = Vec::new();
        let mut i: usize = 0;
        while i < self.records.len()
            invariant
                i <= self.records@.len(),
                self.records@.len() == old(self)@.records.len(),
                self@ == (RegistryModel { records: self.records@, ..old(self)@ }),
                self@.wf(),
                every == (|k: int| true),
                effects@ == revocations(old(self)@.records, every, i as nat),
                forall|j: int|
                    0 <= j < i ==> #[trigger] self.records@[j] == revoked(
                        old(self)@.records,
                        every,
                    )[j],
                forall|j: int|
                    i <= j < self.records@.len() ==> #[trigger] self.records@[j] == old(
                        self,
                    )@.records[j],
            decreases self.records@.len() - i,
        {
            let record = self.records[i];
            proof {
                assert(self@.record_ok(i as int));
            }
            if !record.phase.over() {
                self.set_phase(record.token.id, ObjectPhase::Revoked);
                effects.push(ObjectEffect::Revoked(record.token));
            }
            i += 1;
        }
        proof {
            assert(self@.records =~= revoked(old(self)@.records, every));
        }
        effects
    }
}

/// No object stands below itself, and every other stands below the connection.
pub proof fn the_tree_has_one_root(model: RegistryModel, id: int)
    requires
        model.wf(),
        0 <= id < model.records.len(),
    ensures
        !descends(model.records, id, model.records[id].token),
        id > 0 ==> descends(model.records, id, model.records[0].token),
    decreases id,
{
    assert(model.record_ok(id));
    if descends(model.records, id, model.records[id].token) {
        descendants_come_later(model, id, model.records[id].token);
    }
    if id > 0 {
        the_tree_has_one_root(model, model.records[id].parent.unwrap().id as int);
    }
}

/// Whatever stands below an object was created after it.
pub proof fn descendants_come_later(model: RegistryModel, id: int, ancestor: ObjectToken)
    requires
        model.wf(),
        descends(model.records, id, ancestor),
    ensures
        ancestor.id < id,
        0 <= id < model.records.len(),
        model.lookup(ancestor) is Ok,
    decreases id,
{
    assert(model.record_ok(id));
    let parent = model.records[id].parent.unwrap();
    assert(model.record_ok(parent.id as int));
    if parent != ancestor {
        descendants_come_later(model, parent.id as int, ancestor);
    }
}

/// Whatever is not active with all above it stays so while phases only end.
proof fn death_spreads_down(
    before: Seq<ObjectRecord>,
    after: Seq<ObjectRecord>,
    id: int,
    over: int,
)
    requires
        before.len() == after.len(),
        0 <= over < after.len(),
        after[over].phase != ObjectPhase::Active,
        forall|i: int| 0 <= i < before.len() ==> (#[trigger] after[i]).parent == before[i].parent,
        id == over || (0 <= id < before.len() && descends(before, id, before[over].token)),
        before[over].token.id == over,
    ensures
        !live(after, id),
    decreases id,
{
    if id != over {
        assert(after[id].parent == before[id].parent);
        let parent = before[id].parent.unwrap();
        if parent == before[over].token {
            if parent.id < id {
                assert(!live(after, over));
            }
        } else {
            death_spreads_down(before, after, parent.id as int, over);
        }
    }
}

proof fn revocations_of_none(records: Seq<ObjectRecord>, doomed: spec_fn(int) -> bool, n: nat)
    requires
        n <= records.len(),
        forall|i: int| 0 <= i < n && doomed(i) ==> (#[trigger] records[i]).phase.is_over(),
    ensures
        revocations(records, doomed, n) == Seq::<ObjectEffect>::empty(),
    decreases n,
{
    if n > 0 {
        revocations_of_none(records, doomed, (n - 1) as nat);
    }
}

/// The loss of a generation is complete and happens once: afterwards no token
/// whatsoever is accepted, every object is over, and losing the generation
/// again changes nothing and has no effect.
pub proof fn generation_loss_is_final(model: RegistryModel, token: ObjectToken)
    requires
        model.wf(),
    ensures
        model.lost().0.validated(token) is Err,
        model.lookup(token) is Ok ==> model.lost().0.validated(token) == Err::<(), ObjectError>(
            ObjectError::ParentNotActive,
        ),
        forall|i: int|
            0 <= i < model.records.len() ==> (
            #[trigger] model.lost().0.records[i]).phase.is_over(),
        model.lost().0.lost() == (model.lost().0, Seq::<ObjectEffect>::empty()),
{
    let gone = model.lost().0;
    let every = |i: int| true;
    assert forall|i: int| 0 <= i < gone.records.len() implies (
    #[trigger] gone.records[i]).phase.is_over() by {}
    revocations_of_none(gone.records, every, gone.records.len());
    assert(revoked(gone.records, every) =~= gone.records);
}

/// Closing an object revokes everything below it exactly once: afterwards the
/// object and all below it are over and refused, everything else is as before,
/// and closing it again has no further effect.
pub proof fn close_revokes_the_subtree_once(model: RegistryModel, token: ObjectToken, i: int)
    requires
        model.wf(),
        model.lookup(token) is Ok,
        0 <= i < model.records.len(),
    ensures
        ({
            let next = model.close_completed(token).0;
            let below = i == token.id || descends(model.records, i, token);
            &&& below ==> next.records[i].phase.is_over() && next.validated(
                model.records[i].token,
            ) == Err::<(), ObjectError>(ObjectError::ParentNotActive)
            &&& !below ==> next.records[i] == model.records[i]
            &&& next.close_completed(token) == (
                next,
                Ok::<Seq<ObjectEffect>, ObjectError>(Seq::empty()),
            )
        }),
{
    let next = model.close_completed(token).0;
    let middle = model.subtree_revoked(token).0;
    assert(model.record_ok(i));
    assert(model.record_ok(token.id as int));
    assert forall|j: int| 0 <= j < model.records.len() implies (
    #[trigger] next.records[j]).parent == model.records[j].parent by {}
    if i == token.id || descends(model.records, i, token) {
        death_spreads_down(model.records, next.records, i, token.id as int);
    }
    let below = |j: int| descends(next.records, j, token);
    assert forall|j: int| 0 <= j < next.records.len() && below(j) implies (
    #[trigger] next.records[j]).phase.is_over() by {
        lineage_decides_descent(model.records, next.records, j, token);
    }
    revocations_of_none(next.records, below, next.records.len());
    assert(revoked(next.records, below) =~= next.records);
    assert(next.subtree_revoked(token).0.with_phase(token.id, ObjectPhase::Closed) =~= next);
}

/// A published replacement makes the previous token stale, is itself accepted
/// when everything above it is active, and keeps the objects below it: their
/// tokens stay, and they are accepted again with it.
pub proof fn replacement_takes_over(model: RegistryModel, token: ObjectToken, i: int)
    requires
        model.wf(),
        model.replaced(token).1 is Ok,
        0 <= i < model.records.len(),
        i != token.id,
    ensures
        ({
            let (next, effect) = model.replaced(token);
            let replacement = effect->Ok_0->replacement;
            &&& next.validated(token) == Err::<(), ObjectError>(ObjectError::Stale)
            &&& next.lookup(replacement) is Ok
            &&& (model.records[token.id as int].parent is None || live(
                model.records,
                model.records[token.id as int].parent.unwrap().id as int,
            )) ==> next.validated(replacement) is Ok
            &&& next.records[i].token == model.records[i].token
            &&& next.records[i].phase == model.records[i].phase
            &&& descends(next.records, i, replacement) == descends(model.records, i, token)
        }),
{
    let (next, effect) = model.replaced(token);
    let replacement = effect->Ok_0->replacement;
    assert(model.record_ok(token.id as int));
    assert(model.record_ok(i));
    if model.records[token.id as int].parent is Some {
        let above = model.records[token.id as int].parent.unwrap().id as int;
        if live(model.records, above) {
            liveness_above_is_kept(model, token, above);
        }
    }
    descent_follows_replacement(model, token, i);
}

proof fn liveness_above_is_kept(model: RegistryModel, token: ObjectToken, id: int)
    requires
        model.wf(),
        model.replaced(token).1 is Ok,
        0 <= id < token.id,
        live(model.records, id),
    ensures
        live(model.replaced(token).0.records, id),
    decreases id,
{
    assert(model.record_ok(id));
    let next = model.replaced(token).0;
    if model.records[id].parent is Some {
        liveness_above_is_kept(model, token, model.records[id].parent.unwrap().id as int);
    }
}

proof fn descent_follows_replacement(model: RegistryModel, token: ObjectToken, id: int)
    requires
        model.wf(),
        model.replaced(token).1 is Ok,
        0 <= id < model.records.len(),
    ensures
        descends(
            model.replaced(token).0.records,
            id,
            model.replaced(token).1->Ok_0->replacement,
        ) == descends(model.records, id, token),
    decreases id,
{
    assert(model.record_ok(id));
    let next = model.replaced(token).0;
    if model.records[id].parent is Some {
        let parent = model.records[id].parent.unwrap();
        assert(model.record_ok(parent.id as int));
        if parent != token {
            descent_follows_replacement(model, token, parent.id as int);
        }
    }
}

/// Sessions stand below the connection, shares below sessions and resources
/// below shares; nothing stands above the connection. An object is over once
/// it is revoked or closed.
pub proof fn kinds_stand_below_each_other(kind: ObjectKind, phase: ObjectPhase)
    ensures
        kind.parent_kind() is None <==> kind is Connection,
        kind.parent_kind() == Some(ObjectKind::Connection) <==> kind is Session,
        kind.parent_kind() == Some(ObjectKind::Session) <==> kind is Share,
        kind.parent_kind() == Some(ObjectKind::Share) <==> kind is Resource,
        phase.is_over() <==> phase is Revoked || phase is Closed,
{
}

/// A token is found where it names the current epoch of an object of this
/// generation; else the reason is told: another generation, an object that
/// never was, or an epoch that is past.
pub proof fn tokens_name_current_objects(model: RegistryModel, token: ObjectToken)
    requires
        model.wf(),
    ensures
        ({
            let found = model.lookup(token);
            let foreign = token.generation != model.generation;
            let unknown = token.id >= model.records.len();
            &&& found == Err::<ObjectRecord, ObjectError>(ObjectError::ForeignGeneration)
                <==> foreign
            &&& found == Err::<ObjectRecord, ObjectError>(ObjectError::Unknown) <==> !foreign
                && unknown
            &&& found == Err::<ObjectRecord, ObjectError>(ObjectError::Stale) <==> !foreign
                && !unknown && model.records[token.id as int].token.epoch != token.epoch
            &&& found matches Ok(record) ==> record.token == token && record
                == model.records[token.id as int]
            &&& found is Ok <==> !foreign && !unknown && model.records[token.id as int].token
                == token
        }),
{
    if token.id < model.records.len() {
        assert(model.record_ok(token.id as int));
    }
}

/// A token is accepted where it is current and the object and everything
/// above it are active, and only there.
pub proof fn accepted_tokens_are_live(model: RegistryModel, token: ObjectToken)
    requires
        model.wf(),
    ensures
        model.validated(token) is Ok <==> {
            &&& model.lookup(token) is Ok
            &&& model.records[token.id as int].phase is Active
            &&& forall|above: ObjectToken| #[trigger]
                descends(model.records, token.id as int, above)
                    ==> model.records[above.id as int].phase is Active
        },
        model.lookup(token) is Ok && model.validated(token) is Err ==> model.validated(token)
            == Err::<(), ObjectError>(ObjectError::ParentNotActive),
        model.lookup(token) matches Err(error) ==> model.validated(token) == Err::<
            (),
            ObjectError,
        >(error),
{
    if model.lookup(token) is Ok {
        live_means_all_above(model, token.id as int);
    }
}

proof fn live_means_all_above(model: RegistryModel, id: int)
    requires
        model.wf(),
        0 <= id < model.records.len(),
    ensures
        live(model.records, id) <==> model.records[id].phase is Active && (forall|
            above: ObjectToken,
        | #[trigger]
            descends(model.records, id, above) ==> model.records[above.id as int].phase is Active),
    decreases id,
{
    assert(model.record_ok(id));
    if model.records[id].parent is Some {
        let parent = model.records[id].parent.unwrap();
        live_means_all_above(model, parent.id as int);
        if live(model.records, id) {
            assert forall|above: ObjectToken| #[trigger]
                descends(model.records, id, above) implies model.records[above.id as int].phase
                is Active by {
                if above != parent {
                    assert(descends(model.records, parent.id as int, above));
                }
            }
        } else if model.records[id].phase is Active {
            if model.records[parent.id as int].phase is Active {
                let above = choose|above: ObjectToken| #[trigger]
                    descends(model.records, parent.id as int, above)
                        && !(model.records[above.id as int].phase is Active);
                assert(descends(model.records, id, above));
            } else {
                assert(descends(model.records, id, parent));
            }
        }
    }
}

/// An object is made below an active object of the kind above it, as long as
/// ids are left: under a new id, active, with all others left as they are.
/// Everything else is refused with its reason.
pub proof fn children_are_made_below_active_parents(
    model: RegistryModel,
    parent: ObjectToken,
    kind: ObjectKind,
)
    requires
        model.wf(),
    ensures
        ({
            let (next, made) = model.with_child(parent, kind);
            let found = model.lookup(parent);
            &&& found matches Err(error) ==> made == Err::<ObjectToken, ObjectError>(error)
            &&& found matches Ok(record) ==> {
                let fitting = match kind {
                    ObjectKind::Connection => false,
                    ObjectKind::Session => record.kind is Connection,
                    ObjectKind::Share => record.kind is Session,
                    ObjectKind::Resource => record.kind is Share,
                };
                &&& made == Err::<ObjectToken, ObjectError>(ObjectError::InvalidParent)
                    <==> !fitting
                &&& made == Err::<ObjectToken, ObjectError>(ObjectError::ParentNotActive)
                    <==> fitting && !(record.phase is Active)
                &&& made == Err::<ObjectToken, ObjectError>(ObjectError::IdExhausted) <==> fitting
                    && record.phase is Active && model.next_id is None
                &&& made is Ok <==> fitting && record.phase is Active && model.next_id is Some
            }
            &&& made is Err ==> next == model
            &&& made matches Ok(token) ==> {
                &&& token.generation == model.generation
                &&& token.id == model.records.len()
                &&& token.epoch == 0
                &&& next.records.drop_last() == model.records
                &&& next.records.last() == (ObjectRecord {
                    token,
                    kind,
                    parent: Some(parent),
                    phase: ObjectPhase::Active,
                })
                &&& next.connection == model.connection
                &&& next.generation == model.generation
                &&& next.next_id is None <==> token.id == u64::MAX
                &&& next.next_id matches Some(id) ==> id == token.id + 1
            }
        }),
{
    let (next, made) = model.with_child(parent, kind);
    if made is Ok {
        assert(next.records.drop_last() =~= model.records);
    }
}

/// An object that is being recovered can be replaced: it comes back active,
/// in the next epoch, and nothing else is. Any other is refused.
pub proof fn replacements_have_the_next_epoch(model: RegistryModel, token: ObjectToken)
    requires
        model.wf(),
    ensures
        ({
            let (next, replaced) = model.replaced(token);
            let found = model.lookup(token);
            &&& replaced is Ok <==> found is Ok && found->Ok_0.phase is Recovering && token.epoch
                < u64::MAX
            &&& replaced is Err ==> next == model
            &&& found is Ok && !(found->Ok_0.phase is Recovering) ==> replaced == Err::<
                ObjectEffect,
                ObjectError,
            >(ObjectError::ParentNotActive)
            &&& replaced matches Ok(effect) ==> {
                let replacement = ObjectToken { epoch: (token.epoch + 1) as u64, ..token };
                &&& effect == (ObjectEffect::ReplacementPublished { previous: token, replacement })
                &&& next.records[token.id as int].token == replacement
                &&& next.records[token.id as int].phase is Active
                &&& next.records[token.id as int].kind == model.records[token.id as int].kind
                &&& next.records.len() == model.records.len()
                &&& forall|i: int|
                    0 <= i < model.records.len() && i != token.id ==> (
                    #[trigger] next.records[i]).parent == if model.records[i].parent == Some(
                        token,
                    ) {
                        Some(replacement)
                    } else {
                        model.records[i].parent
                    }
            }
        }),
{
}

/// Whoever asks first to close an object closes it; whoever asks later waits
/// for that, and finds it closed once it is over.
pub proof fn objects_are_closed_by_the_first(model: RegistryModel, token: ObjectToken)
    ensures
        ({
            let (next, decision) = model.close_begun(token);
            &&& model.lookup(token) matches Err(error) ==> decision == Err::<
                CloseDecision,
                ObjectError,
            >(error) && next == model
            &&& model.lookup(token) matches Ok(record) ==> {
                let phase = record.phase;
                &&& decision == Ok::<CloseDecision, ObjectError>(CloseDecision::OwnProtocolClose)
                    <==> phase is Active || phase is Recovering
                &&& decision == Ok::<CloseDecision, ObjectError>(CloseDecision::AwaitExistingClose)
                    <==> phase is Closing
                &&& decision == Ok::<CloseDecision, ObjectError>(CloseDecision::AlreadyClosed)
                    <==> phase is Revoked || phase is Closed
                &&& phase is Active || phase is Recovering ==> next.records[token.id as int].phase
                    is Closing && next.close_begun(token).1 == Ok::<CloseDecision, ObjectError>(
                    CloseDecision::AwaitExistingClose,
                )
                &&& !(phase is Active || phase is Recovering) ==> next == model
            }
        }),
{
}

/// Exactly the objects that are revoked are told: each that was not over,
/// once, in the order in which they were made.
pub proof fn revocations_name_the_revoked(
    records: Seq<ObjectRecord>,
    doomed: spec_fn(int) -> bool,
    n: nat,
    i: int,
)
    requires
        n <= records.len(),
        0 <= i < n,
    ensures
        doomed(i) && !(records[i].phase is Revoked) && !(records[i].phase is Closed)
            ==> revocations(records, doomed, n).contains(ObjectEffect::Revoked(records[i].token)),
        forall|k: int|
            0 <= k < revocations(records, doomed, n).len() ==> exists|j: int|
                0 <= j < n && doomed(j) && !(records[j].phase is Revoked) && !(records[j].phase
                    is Closed) && (#[trigger] revocations(records, doomed, n)[k])
                    == ObjectEffect::Revoked((#[trigger] records[j]).token),
        revocations(records, doomed, n).len() <= n,
        revoked(records, doomed).len() == records.len(),
        doomed(i) && !(records[i].phase is Closed) ==> revoked(records, doomed)[i].phase is Revoked,
        records[i].phase is Closed || !doomed(i) ==> revoked(records, doomed)[i] == records[i],
        revoked(records, doomed)[i].token == records[i].token,
        revoked(records, doomed)[i].parent == records[i].parent,
        revoked(records, doomed)[i].kind == records[i].kind,
    decreases n,
{
    let effects = revocations(records, doomed, n);
    let earlier = revocations(records, doomed, (n - 1) as nat);
    let last = n - 1;
    if n > 1 {
        revocations_name_the_revoked(
            records,
            doomed,
            (n - 1) as nat,
            if i < last {
                i
            } else {
                0
            },
        );
    }
    if i == last {
        if doomed(last) && !records[last].phase.is_over() {
            assert(effects[effects.len() - 1] == ObjectEffect::Revoked(records[last].token));
        }
    } else if doomed(i) && !records[i].phase.is_over() {
        let k = choose|k: int|
            0 <= k < earlier.len() && earlier[k] == ObjectEffect::Revoked(records[i].token);
        assert(effects[k] == earlier[k]);
    }
    assert forall|k: int| 0 <= k < effects.len() implies exists|j: int|
        0 <= j < n && doomed(j) && !(records[j].phase is Revoked) && !(records[j].phase is Closed)
            && (#[trigger] effects[k]) == ObjectEffect::Revoked((#[trigger] records[j]).token) by {
        if k < earlier.len() {
            assert(effects[k] == earlier[k]);
            let j = choose|j: int|
                0 <= j < n - 1 && doomed(j) && !(records[j].phase is Revoked) && !(
                records[j].phase is Closed) && (#[trigger] earlier[k]) == ObjectEffect::Revoked(
                    (#[trigger] records[j]).token,
                );
            assert(effects[k] == ObjectEffect::Revoked(records[j].token));
        } else {
            assert(effects[k] == ObjectEffect::Revoked(records[last].token));
        }
    }
}

/// A recovery that fails revokes the object and everything below it, and
/// nothing else; the object is told first.
pub proof fn failed_recoveries_revoke_the_subtree(model: RegistryModel, token: ObjectToken, i: int)
    requires
        model.wf(),
        0 <= i < model.records.len(),
    ensures
        ({
            let (next, failed) = model.recovery_failed(token);
            let found = model.lookup(token);
            let recovering = found is Ok && found->Ok_0.phase is Recovering;
            &&& failed is Ok <==> recovering
            &&& !recovering ==> next == model
            &&& failed matches Ok(effects) ==> {
                let below = i == token.id || descends(model.records, i, token);
                &&& effects.len() > 0
                &&& effects[0] == ObjectEffect::Revoked(token)
                &&& below ==> next.records[i].phase.is_over()
                &&& !below ==> next.records[i] == model.records[i]
                &&& descends(model.records, i, token) && !model.records[i].phase.is_over()
                    ==> effects.contains(ObjectEffect::Revoked(model.records[i].token))
            }
        }),
{
    let (next, failed) = model.recovery_failed(token);
    if failed is Ok {
        let below = |j: int| descends(model.records, j, token);
        let others = revocations(model.records, below, model.records.len());
        revocations_name_the_revoked(model.records, below, model.records.len(), i);
        if below(i) && !model.records[i].phase.is_over() {
            let k = choose|k: int|
                0 <= k < others.len() && others[k] == ObjectEffect::Revoked(
                    model.records[i].token,
                );
            assert(failed->Ok_0[k + 1] == others[k]);
        }
    }
}

/// The loss of a generation is told to every object that was not over.
pub proof fn losses_are_told_to_every_object(model: RegistryModel, i: int)
    requires
        0 <= i < model.records.len(),
    ensures
        !(model.records[i].phase is Revoked) && !(model.records[i].phase is Closed)
            ==> model.lost().1.contains(ObjectEffect::Revoked(model.records[i].token))
            && model.lost().0.records[i].phase is Revoked,
        model.records[i].phase is Closed ==> model.lost().0.records[i].phase is Closed,
{
    let every = |j: int| true;
    revocations_name_the_revoked(model.records, every, model.records.len(), i);
}

/// An object that was replaced alone leaves nothing alive below it.
pub proof fn lone_replacements_revoke_what_was_below(
    model: RegistryModel,
    token: ObjectToken,
    i: int,
)
    requires
        model.wf(),
        0 <= i < model.records.len(),
        model.replaced_alone(token).1 is Ok,
    ensures
        ({
            let (next, replaced) = model.replaced_alone(token);
            let replacement = ObjectToken { epoch: (token.epoch + 1) as u64, ..token };
            &&& replaced->Ok_0.0 == (ObjectEffect::ReplacementPublished {
                previous: token,
                replacement,
            })
            &&& next.records[token.id as int].token == replacement
            &&& next.records[token.id as int].phase is Active
            &&& descends(model.records, i, token) ==> next.records[i].phase.is_over()
            &&& i != token.id && !descends(model.records, i, token) ==> next.records[i].phase
                == model.records[i].phase
        }),
{
    let (middle, effect) = model.replaced(token);
    let replacement = effect->Ok_0->replacement;
    assert(model.record_ok(token.id as int));
    descent_follows_replacement(model, token, i);
    descent_follows_replacement(model, token, token.id as int);
    if descends(model.records, token.id as int, token) {
        descendants_come_later(model, token.id as int, token);
    }
}

/// A registry begins with its connection, active and alone.
pub proof fn registries_begin_with_the_connection(generation: GenerationId)
    ensures
        ({
            let model = RegistryModel::initial(generation);
            &&& model.wf()
            &&& model.generation == generation
            &&& model.records.len() == 1
            &&& model.records[0].kind is Connection
            &&& model.records[0].phase is Active
            &&& model.records[0].parent is None
            &&& model.validated(model.connection) is Ok
        }),
{
}

} // verus!
