//! Scripted lifecycles: named tasks, what became of them, and an orderly end.

use crate::runtime::error::TransportError;
use vstd::prelude::*;
use vstd::string::StrSliceExecFns;

verus! {

/// What happened in a scenario.
#[derive(Debug, PartialEq, Eq)]
pub enum ScenarioEvent {
    TaskStarted { name: String },
    TaskSucceeded { name: String },
    TaskFailed { name: String, code: String },
    TaskPanicked { name: String },
    TaskCancelled { name: String },
    ShutdownStarted,
    ShutdownCompleted { timed_out: bool },
}

#[verifier::ext_equal]
pub enum EventView {
    TaskStarted { name: Seq<char> },
    TaskSucceeded { name: Seq<char> },
    TaskFailed { name: Seq<char>, code: Seq<char> },
    TaskPanicked { name: Seq<char> },
    TaskCancelled { name: Seq<char> },
    ShutdownStarted,
    ShutdownCompleted { timed_out: bool },
}

impl View for ScenarioEvent {
    type V = EventView;

    open spec fn view(&self) -> EventView {
        match self {
            ScenarioEvent::TaskStarted { name } => EventView::TaskStarted { name: name@ },
            ScenarioEvent::TaskSucceeded { name } => EventView::TaskSucceeded { name: name@ },
            ScenarioEvent::TaskFailed { name, code } => EventView::TaskFailed {
                name: name@,
                code: code@,
            },
            ScenarioEvent::TaskPanicked { name } => EventView::TaskPanicked { name: name@ },
            ScenarioEvent::TaskCancelled { name } => EventView::TaskCancelled { name: name@ },
            ScenarioEvent::ShutdownStarted => EventView::ShutdownStarted,
            ScenarioEvent::ShutdownCompleted { timed_out } => EventView::ShutdownCompleted {
                timed_out: *timed_out,
            },
        }
    }
}

pub open spec fn event_views(events: Seq<ScenarioEvent>) -> Seq<EventView> {
    events.map_values(|event: ScenarioEvent| event@)
}

/// What is left of a scenario.
#[derive(Debug, PartialEq, Eq)]
pub struct ScenarioReport {
    pub events: Vec<ScenarioEvent>,
    pub timed_out: bool,
    pub remaining_tasks: usize,
}

/// How a request of a scenario ended.
#[derive(Clone, Copy, Debug, PartialEq, Eq, Structural)]
pub enum TerminalOutcome {
    Response,
    Cancelled,
    TimedOut,
    Failed,
    OutcomeUnknown,
}

/// Takes the first outcome, and no other. There is one probe for a request:
/// whoever may end the request shares that one, and none has a copy of it.
#[derive(Debug, PartialEq, Eq, Structural)]
pub struct TerminalProbe {
    outcome: Option<TerminalOutcome>,
}

impl Default for TerminalProbe {
    fn default() -> (probe: Self)
        ensures
            probe.committed() is None,
    {
        TerminalProbe { outcome: None }
    }
}

impl TerminalProbe {
    pub closed spec fn committed(&self) -> Option<TerminalOutcome> {
        self.outcome
    }

    /// Takes an outcome, and says whether it is the first.
    pub fn try_commit(&mut self, outcome: TerminalOutcome) -> (committed: bool)
        ensures
            (final(self).committed(), committed) == commit(old(self).committed(), outcome),
    {
        if self.outcome.is_some() {
            return false;
        }
        self.outcome = Some(outcome);
        true
    }

    pub fn outcome(&self) -> (outcome: Option<TerminalOutcome>)
        ensures
            outcome == self.committed(),
    {
        self.outcome
    }
}

/// What a probe holds once an outcome was offered to it, and whether it took
/// that one.
pub open spec fn commit(held: Option<TerminalOutcome>, outcome: TerminalOutcome) -> (
    Option<TerminalOutcome>,
    bool,
) {
    match held {
        None => (Some(outcome), true),
        Some(_) => (held, false),
    }
}

/// What a new probe holds after some offers, whoever makes them, and which of
/// them it took.
pub open spec fn offered(outcomes: Seq<TerminalOutcome>) -> (Option<TerminalOutcome>, Seq<bool>)
    decreases outcomes.len(),
{
    if outcomes.len() == 0 {
        (None, Seq::empty())
    } else {
        let (held, taken) = offered(outcomes.drop_last());
        let (next, took) = commit(held, outcomes.last());
        (next, taken.push(took))
    }
}

/// However many share a probe, it takes the first outcome that is offered and
/// refuses every later one; from the first on it tells that one, for good.
pub proof fn the_first_outcome_stands(outcomes: Seq<TerminalOutcome>)
    ensures
        offered(outcomes).1.len() == outcomes.len(),
        forall|i: int| 0 <= i < outcomes.len() ==> #[trigger] offered(outcomes).1[i] == (i == 0),
        offered(outcomes).0 == (if outcomes.len() == 0 {
            None
        } else {
            Some(outcomes[0])
        }),
    decreases outcomes.len(),
{
    if outcomes.len() > 0 {
        the_first_outcome_stands(outcomes.drop_last());
    }
}

/// Why a scenario refuses something.
#[derive(Debug, PartialEq, Eq)]
pub enum ScenarioError {
    TransportTaken,
    EmptyTaskName,
    InvalidTaskName,
    DuplicateTaskName(String),
}

/// Whether a character may stand in a stable identifier.
pub open spec fn stable_char(c: char) -> bool {
    ('a' <= c && c <= 'z') || ('A' <= c && c <= 'Z') || ('0' <= c && c <= '9') || c == '-' || c
        == '_' || c == '.'
}

/// Whether a text is a stable identifier: short, and made of ASCII letters,
/// digits, hyphens, underscores and dots alone.
pub open spec fn stable_identifier(text: Seq<char>) -> bool {
    &&& 0 < text.len() <= 64
    &&& forall|i: int| 0 <= i < text.len() ==> stable_char(#[trigger] text[i])
}

fn is_stable_char(c: char) -> (stable: bool)
    ensures
        stable == stable_char(c),
{
    ('a' <= c && c <= 'z') || ('A' <= c && c <= 'Z') || ('0' <= c && c <= '9') || c == '-' || c
        == '_' || c == '.'
}

pub fn is_stable_identifier(text: &str) -> (stable: bool)
    ensures
        stable == stable_identifier(text@),
{
    let len: usize = text.unicode_len();
    if len == 0 || len > 64 {
        return false;
    }
    let mut i: usize = 0;
    while i < len
        invariant
            i <= len == text@.len(),
            forall|j: int| 0 <= j < i ==> stable_char(#[trigger] text@[j]),
        decreases len - i,
    {
        if !is_stable_char(text.get_char(i)) {
            return false;
        }
        i = i + 1;
    }
    true
}

#[derive(Clone, Copy, Debug, PartialEq, Eq, Structural)]
pub enum ScenarioTaskErrorKind {
    Failed,
    Cancelled,
}

/// Why a task of a scenario ended early.
#[derive(Debug, PartialEq, Eq)]
pub struct ScenarioTaskError {
    kind: ScenarioTaskErrorKind,
    code: String,
}

impl ScenarioTaskError {
    pub closed spec fn kind(&self) -> ScenarioTaskErrorKind {
        self.kind
    }

    pub closed spec fn code(&self) -> Seq<char> {
        self.code@
    }

    /// A failure. Its code is kept where it is a stable identifier.
    pub fn failed(code: String) -> (error: Self)
        ensures
            error.kind() == ScenarioTaskErrorKind::Failed,
            error.code() == (if stable_identifier(code@) {
                code@
            } else {
                "invalid-failure-code"@
            }),
    {
        let stable = is_stable_identifier(code.as_str());
        ScenarioTaskError {
            kind: ScenarioTaskErrorKind::Failed,
            code: if stable {
                code
            } else {
                "invalid-failure-code".to_owned()
            },
        }
    }

    pub fn cancelled() -> (error: Self)
        ensures
            error.kind() == ScenarioTaskErrorKind::Cancelled,
            error.code() == "cancelled"@,
    {
        ScenarioTaskError {
            kind: ScenarioTaskErrorKind::Cancelled,
            code: "cancelled".to_owned(),
        }
    }

    /// The failure of a transport.
    pub fn from_transport(error: TransportError) -> (task_error: Self)
        ensures
            task_error.kind() == ScenarioTaskErrorKind::Failed,
            task_error.code() == transport_failure(error)@,
    {
        let code = match error {
            TransportError::AlreadyConnected => "transport-already-connected",
            TransportError::InvalidMessage => "transport-invalid-message",
            TransportError::FrameTooLarge => "transport-frame-too-large",
            TransportError::SegmentLimitExceeded => "transport-segment-limit",
            TransportError::CursorAdvanceOutOfBounds => "transport-cursor-bounds",
            TransportError::WriteZero => "transport-write-zero",
            TransportError::ParseError => "transport-parse",
            TransportError::NotConnected => "transport-not-connected",
            TransportError::AlreadySplit => "transport-already-split",
            TransportError::Timeout => "transport-timeout",
            TransportError::InvalidAddress => "transport-invalid-address",
            TransportError::IoError => "transport-io",
        };
        proof {
            transport_failures_are_stable(error);
        }
        Self::failed(code.to_owned())
    }
}

/// The code of a failed transport.
pub open spec fn transport_failure(error: TransportError) -> &'static str {
    match error {
        TransportError::AlreadyConnected => "transport-already-connected",
        TransportError::InvalidMessage => "transport-invalid-message",
        TransportError::FrameTooLarge => "transport-frame-too-large",
        TransportError::SegmentLimitExceeded => "transport-segment-limit",
        TransportError::CursorAdvanceOutOfBounds => "transport-cursor-bounds",
        TransportError::WriteZero => "transport-write-zero",
        TransportError::ParseError => "transport-parse",
        TransportError::NotConnected => "transport-not-connected",
        TransportError::AlreadySplit => "transport-already-split",
        TransportError::Timeout => "transport-timeout",
        TransportError::InvalidAddress => "transport-invalid-address",
        TransportError::IoError => "transport-io",
    }
}

/// Every failed transport has a code of its own, which is a stable
/// identifier.
pub proof fn transport_failures_are_stable(error: TransportError)
    ensures
        stable_identifier(transport_failure(error)@),
        forall|other: TransportError| #[trigger]
            transport_failure(other)@ == transport_failure(error)@ ==> other == error,
{
    reveal_strlit("transport-already-connected");
    reveal_strlit("transport-invalid-message");
    reveal_strlit("transport-frame-too-large");
    reveal_strlit("transport-segment-limit");
    reveal_strlit("transport-cursor-bounds");
    reveal_strlit("transport-write-zero");
    reveal_strlit("transport-parse");
    reveal_strlit("transport-not-connected");
    reveal_strlit("transport-already-split");
    reveal_strlit("transport-timeout");
    reveal_strlit("transport-invalid-address");
    reveal_strlit("transport-io");
    assert forall|other: TransportError| #[trigger]
        transport_failure(other)@ == transport_failure(error)@ implies other == error by {
        let code = transport_failure(error)@;
        let same = transport_failure(other)@;
        assert(code.len() == same.len() && code[10] == same[10] && code[11] == same[11]);
        assert(code.len() > 18 ==> code[18] == same[18]);
    }
}

/// How a task ended.
#[derive(Debug, PartialEq, Eq)]
pub enum TaskEnd {
    Succeeded,
    Failed(ScenarioTaskError),
    Panicked,
}

/// What is recorded of the end of a task.
pub open spec fn end_event(name: Seq<char>, end: TaskEnd) -> EventView {
    match end {
        TaskEnd::Succeeded => EventView::TaskSucceeded { name },
        TaskEnd::Failed(error) => match error.kind() {
            ScenarioTaskErrorKind::Cancelled => EventView::TaskCancelled { name },
            ScenarioTaskErrorKind::Failed => EventView::TaskFailed { name, code: error.code() },
        },
        TaskEnd::Panicked => EventView::TaskPanicked { name },
    }
}

/// Whether one name comes before another in a listing.
pub open spec fn comes_before(a: Seq<char>, b: Seq<char>) -> bool
    decreases a.len(),
{
    if b.len() == 0 {
        false
    } else if a.len() == 0 {
        true
    } else if a[0] != b[0] {
        a[0] < b[0]
    } else {
        comes_before(a.drop_first(), b.drop_first())
    }
}

proof fn order_is_total(a: Seq<char>, b: Seq<char>)
    ensures
        comes_before(a, b) || comes_before(b, a) || a == b,
        !(comes_before(a, b) && comes_before(b, a)),
        !comes_before(a, a),
    decreases a.len(),
{
    if a.len() > 0 && b.len() > 0 {
        order_is_total(a.drop_first(), b.drop_first());
        if a[0] == b[0] && a.drop_first() == b.drop_first() {
            assert(a =~= seq![a[0]] + a.drop_first());
            assert(b =~= seq![b[0]] + b.drop_first());
        }
        order_is_irreflexive(a);
    } else if a.len() == 0 && b.len() == 0 {
        assert(a =~= b);
    } else {
        order_is_irreflexive(a);
    }
}

proof fn order_is_irreflexive(a: Seq<char>)
    ensures
        !comes_before(a, a),
    decreases a.len(),
{
    if a.len() > 0 {
        order_is_irreflexive(a.drop_first());
    }
}

proof fn order_is_transitive(a: Seq<char>, b: Seq<char>, c: Seq<char>)
    requires
        comes_before(a, b),
        comes_before(b, c),
    ensures
        comes_before(a, c),
    decreases a.len(),
{
    if a.len() > 0 && b.len() > 0 && c.len() > 0 && a[0] == b[0] && b[0] == c[0] {
        order_is_transitive(a.drop_first(), b.drop_first(), c.drop_first());
    }
}

fn is_before(a: &str, b: &str) -> (before: bool)
    ensures
        before == comes_before(a@, b@),
{
    let a_len: usize = a.unicode_len();
    let b_len: usize = b.unicode_len();
    let mut i: usize = 0;
    proof {
        assert(a@.skip(0) =~= a@);
        assert(b@.skip(0) =~= b@);
    }
    while i < a_len && i < b_len
        invariant
            i <= a_len == a@.len(),
            i <= b_len == b@.len(),
            comes_before(a@, b@) == comes_before(a@.skip(i as int), b@.skip(i as int)),
        decreases a_len - i,
    {
        let x: char = a.get_char(i);
        let y: char = b.get_char(i);
        proof {
            assert(a@.skip(i as int)[0] == x);
            assert(b@.skip(i as int)[0] == y);
            assert(a@.skip(i as int).drop_first() =~= a@.skip(i + 1));
            assert(b@.skip(i as int).drop_first() =~= b@.skip(i + 1));
        }
        if x != y {
            return x < y;
        }
        i = i + 1;
    }
    i < b_len
}

pub open spec fn names(tasks: Seq<String>) -> Seq<Seq<char>> {
    tasks.map_values(|task: String| task@)
}

pub open spec fn sorted(names: Seq<Seq<char>>) -> bool {
    forall|i: int, j: int|
        0 <= i < j < names.len() ==> comes_before(#[trigger] names[i], #[trigger] names[j])
}

pub open spec fn cancelled_events(names: Seq<Seq<char>>) -> Seq<EventView> {
    names.map_values(|name: Seq<char>| EventView::TaskCancelled { name })
}

#[verifier::ext_equal]
pub struct ScenarioModel {
    pub transport_taken: bool,
    /// The tasks that run, by their names.
    pub active: Seq<Seq<char>>,
    pub events: Seq<EventView>,
}

impl ScenarioModel {
    /// No two tasks have one name.
    pub open spec fn wf(self) -> bool {
        sorted(self.active)
    }

    pub open spec fn recorded(self, event: EventView) -> Self {
        ScenarioModel { events: self.events.push(event), ..self }
    }

    /// Where a name belongs among those of the tasks that run.
    pub open spec fn place(self, name: Seq<char>) -> int
        decreases self.active.len(),
    {
        place_in(self.active, name)
    }

    /// A task asks to be started.
    pub open spec fn started(self, name: Seq<char>) -> Self {
        ScenarioModel {
            active: self.active.insert(self.place(name), name),
            ..self.recorded(EventView::TaskStarted { name })
        }
    }
}

/// How many names come before a name.
pub open spec fn place_in(names: Seq<Seq<char>>, name: Seq<char>) -> int
    decreases names.len(),
{
    if names.len() == 0 || !comes_before(names[0], name) {
        0
    } else {
        1 + place_in(names.drop_first(), name)
    }
}

proof fn place_is_within(names: Seq<Seq<char>>, name: Seq<char>)
    ensures
        0 <= place_in(names, name) <= names.len(),
        forall|i: int|
            0 <= i < place_in(names, name) ==> comes_before(#[trigger] names[i], name),
        place_in(names, name) < names.len() ==> !comes_before(
            names[place_in(names, name)],
            name,
        ),
    decreases names.len(),
{
    if names.len() > 0 && comes_before(names[0], name) {
        let rest = names.drop_first();
        place_is_within(rest, name);
        assert forall|i: int| 0 <= i < place_in(names, name) implies comes_before(
            #[trigger] names[i],
            name,
        ) by {
            if i > 0 {
                assert(rest[i - 1] == names[i]);
            }
        }
    }
}

proof fn place_is_determined(names: Seq<Seq<char>>, name: Seq<char>, n: int)
    requires
        0 <= n <= names.len(),
        forall|i: int| 0 <= i < n ==> comes_before(#[trigger] names[i], name),
        n < names.len() ==> !comes_before(names[n], name),
    ensures
        place_in(names, name) == n,
    decreases names.len(),
{
    if n > 0 {
        let rest = names.drop_first();
        assert(comes_before(names[0], name));
        assert forall|i: int| 0 <= i < n - 1 implies comes_before(#[trigger] rest[i], name) by {
            assert(rest[i] == names[i + 1]);
        }
        place_is_determined(rest, name, n - 1);
    }
}

/// Starting a task keeps the names of those that run apart and in order.
pub proof fn started_tasks_stay_in_order(scenario: ScenarioModel, name: Seq<char>)
    requires
        scenario.wf(),
        !scenario.active.contains(name),
    ensures
        scenario.started(name).wf(),
        scenario.started(name).active.contains(name),
{
    let active = scenario.active;
    let n = scenario.place(name);
    place_is_within(active, name);
    let more = active.insert(n, name);
    assert(more[n] == name);
    assert forall|i: int, j: int| 0 <= i < j < more.len() implies comes_before(
        #[trigger] more[i],
        #[trigger] more[j],
    ) by {
        if j < n {
            assert(more[i] == active[i] && more[j] == active[j]);
        } else if j == n {
            assert(more[i] == active[i]);
        } else if i == n {
            assert(more[j] == active[j - 1]);
            assert(active.contains(active[n]));
            order_is_total(name, active[n]);
            if j - 1 > n {
                order_is_transitive(name, active[n], active[j - 1]);
            }
        } else if i < n {
            assert(more[i] == active[i] && more[j] == active[j - 1]);
        } else {
            assert(more[i] == active[i - 1] && more[j] == active[j - 1]);
        }
    }
}

/// The bookkeeping of a scenario.
pub struct LifecycleScenario {
    transport_taken: bool,
    active: Vec<String>,
    events: Vec<ScenarioEvent>,
}

impl View for LifecycleScenario {
    type V = ScenarioModel;

    closed spec fn view(&self) -> ScenarioModel {
        ScenarioModel {
            transport_taken: self.transport_taken,
            active: names(self.active@),
            events: event_views(self.events@),
        }
    }
}

impl Default for LifecycleScenario {
    fn default() -> (scenario: Self)
        ensures
            scenario@ == (ScenarioModel {
                transport_taken: false,
                active: Seq::empty(),
                events: Seq::empty(),
            }),
            scenario@.wf(),
    {
        LifecycleScenario::new()
    }
}

impl LifecycleScenario {
    pub fn new() -> (scenario: Self)
        ensures
            scenario@ == (ScenarioModel {
                transport_taken: false,
                active: Seq::empty(),
                events: Seq::empty(),
            }),
            scenario@.wf(),
    {
        let scenario = LifecycleScenario {
            transport_taken: false,
            active: Vec::new(),
            events: Vec::new(),
        };
        assert(scenario@.active =~= Seq::<Seq<char>>::empty());
        assert(scenario@.events =~= Seq::<EventView>::empty());
        scenario
    }

    /// Hands the transport out, once.
    pub fn take_transport(&mut self) -> (taken: Result<(), ScenarioError>)
        ensures
            taken == (if old(self)@.transport_taken {
                Err::<(), ScenarioError>(ScenarioError::TransportTaken)
            } else {
                Ok(())
            }),
            final(self)@ == (ScenarioModel { transport_taken: true, ..old(self)@ }),
    {
        if self.transport_taken {
            return Err(ScenarioError::TransportTaken);
        }
        self.transport_taken = true;
        Ok(())
    }

    fn push_event(&mut self, event: ScenarioEvent)
        ensures
            final(self)@ == old(self)@.recorded(event@),
    {
        self.events.push(event);
        assert(self@.events =~= old(self)@.events.push(event@));
    }

    /// Where a name belongs, and whether it is there already.
    fn find(&self, name: &str) -> (found: (usize, bool))
        requires
            self@.wf(),
        ensures
            found.0 == self@.place(name@),
            found.0 <= self.active@.len(),
            found.1 == self@.active.contains(name@),
            found.1 ==> found.0 < self.active@.len() && self@.active[found.0 as int] == name@,
    {
        let mut i: usize = 0;
        while i < self.active.len() && is_before(self.active[i].as_str(), name)
            invariant
                i <= self.active@.len(),
                forall|j: int| 0 <= j < i ==> comes_before(#[trigger] self@.active[j], name@),
            decreases self.active@.len() - i,
        {
            assert(self@.active[i as int] == self.active@[i as int]@);
            i = i + 1;
        }
        proof {
            if i < self.active@.len() {
                assert(self@.active[i as int] == self.active@[i as int]@);
            }
            place_is_determined(self@.active, name@, i as int);
        }
        let same = i < self.active.len() && !is_before(name, self.active[i].as_str());
        proof {
            let active = self@.active;
            if i < active.len() {
                order_is_total(active[i as int], name@);
            }
            if active.contains(name@) {
                let j = choose|j: int| 0 <= j < active.len() && active[j] == name@;
                order_is_total(name@, name@);
                if j < i {
                    assert(comes_before(active[j], name@));
                } else if j > i {
                    assert(comes_before(active[i as int], active[j]));
                }
            }
            if same {
                assert(active[i as int] == name@);
            }
        }
        (i, same)
    }

    /// Starts a task, where its name is a stable identifier that no other
    /// task has.
    pub fn spawn(&mut self, name: String) -> (started: Result<(), ScenarioError>)
        requires
            old(self)@.wf(),
        ensures
            final(self)@.wf(),
            match started {
                Ok(_) => stable_identifier(name@) && !old(self)@.active.contains(name@)
                    && final(self)@ == old(self)@.started(name@),
                Err(ScenarioError::EmptyTaskName) => name@.len() == 0 && final(self)@
                    == old(self)@,
                Err(ScenarioError::InvalidTaskName) => name@.len() > 0 && !stable_identifier(name@)
                    && final(self)@ == old(self)@,
                Err(ScenarioError::DuplicateTaskName(duplicate)) => duplicate@ == name@
                    && stable_identifier(name@) && old(self)@.active.contains(name@)
                    && final(self)@ == old(self)@,
                Err(ScenarioError::TransportTaken) => false,
            },
    {
        if name.as_str().unicode_len() == 0 {
            return Err(ScenarioError::EmptyTaskName);
        }
        if !is_stable_identifier(name.as_str()) {
            return Err(ScenarioError::InvalidTaskName);
        }
        let (place, there) = self.find(name.as_str());
        if there {
            return Err(ScenarioError::DuplicateTaskName(name));
        }
        proof {
            started_tasks_stay_in_order(self@, name@);
        }
        self.active.insert(place, name.clone());
        assert(self@.active =~= old(self)@.active.insert(place as int, name@));
        self.push_event(ScenarioEvent::TaskStarted { name });
        Ok(())
    }

    /// A task ended: what became of it is recorded at once.
    pub fn task_ended(&mut self, name: String, end: TaskEnd)
        requires
            old(self)@.wf(),
        ensures
            final(self)@.wf(),
            final(self)@ == old(self)@.recorded(end_event(name@, end)),
    {
        let event = match end {
            TaskEnd::Succeeded => ScenarioEvent::TaskSucceeded { name },
            TaskEnd::Failed(error) => match error.kind {
                ScenarioTaskErrorKind::Cancelled => ScenarioEvent::TaskCancelled { name },
                ScenarioTaskErrorKind::Failed => ScenarioEvent::TaskFailed {
                    name,
                    code: error.code,
                },
            },
            TaskEnd::Panicked => ScenarioEvent::TaskPanicked { name },
        };
        self.push_event(event);
    }

    /// A task was joined during the shutdown: its name is free again.
    pub fn task_joined(&mut self, name: &str)
        requires
            old(self)@.wf(),
        ensures
            final(self)@.wf(),
            final(self)@ == (ScenarioModel {
                active: if old(self)@.active.contains(name@) {
                    old(self)@.active.remove(old(self)@.place(name@))
                } else {
                    old(self)@.active
                },
                ..old(self)@
            }),
    {
        let (place, there) = self.find(name);
        if there {
            let removed = self.active.remove(place);
            proof {
                let before = old(self)@.active;
                assert(self@.active =~= before.remove(place as int));
                assert forall|i: int, j: int| 0 <= i < j < self@.active.len() implies comes_before(
                    #[trigger] self@.active[i],
                    #[trigger] self@.active[j],
                ) by {
                    let x = if i < place {
                        i
                    } else {
                        i + 1
                    };
                    let y = if j < place {
                        j
                    } else {
                        j + 1
                    };
                    assert(self@.active[i] == before[x] && self@.active[j] == before[y]);
                }
            }
        }
    }

    /// The shutdown begins.
    pub fn begin_shutdown(&mut self)
        requires
            old(self)@.wf(),
        ensures
            final(self)@.wf(),
            final(self)@ == old(self)@.recorded(EventView::ShutdownStarted),
    {
        self.push_event(ScenarioEvent::ShutdownStarted);
    }

    /// The shutdown ends. Tasks that did not end in time are recorded as
    /// cancelled, in the order of their names, and forgotten.
    pub fn shutdown(&mut self, timed_out: bool) -> (report: ScenarioReport)
        requires
            old(self)@.wf(),
        ensures
            final(self)@.wf(),
            report.timed_out == timed_out,
            report.remaining_tasks == (if timed_out {
                0
            } else {
                old(self)@.active.len()
            }),
            event_views(report.events@) == (old(self)@.events + if timed_out {
                cancelled_events(old(self)@.active)
            } else {
                Seq::empty()
            }).push(EventView::ShutdownCompleted { timed_out }),
            final(self)@ == (ScenarioModel {
                active: if timed_out {
                    Seq::empty()
                } else {
                    old(self)@.active
                },
                events: event_views(report.events@),
                ..old(self)@
            }),
    {
        let ghost active = self@.active;
        let ghost events = self@.events;
        if timed_out {
            let mut i: usize = 0;
            proof {
                assert(cancelled_events(active.take(0)) =~= Seq::<EventView>::empty());
                assert(events + Seq::<EventView>::empty() =~= events);
            }
            while i < self.active.len()
                invariant
                    i <= active.len(),
                    self@.active == active,
                    self.active@.len() == active.len(),
                    self.transport_taken == old(self).transport_taken,
                    self@.events == events + cancelled_events(active.take(i as int)),
                decreases active.len() - i,
            {
                let name = self.active[i].clone();
                proof {
                    assert(self@.active[i as int] == self.active@[i as int]@);
                    assert(active.take(i + 1) =~= active.take(i as int).push(name@));
                    assert(cancelled_events(active.take(i + 1)) =~= cancelled_events(
                        active.take(i as int),
                    ).push(EventView::TaskCancelled { name: name@ }));
                }
                self.push_event(ScenarioEvent::TaskCancelled { name });
                assert(self@.events =~= events + cancelled_events(active.take(i + 1)));
                i = i + 1;
            }
            assert(active.take(i as int) =~= active);
            self.active = Vec::new();
            assert(self@.active =~= Seq::<Seq<char>>::empty());
        } else {
            assert(events + Seq::<EventView>::empty() =~= events);
        }
        self.push_event(ScenarioEvent::ShutdownCompleted { timed_out });
        let remaining_tasks: usize = self.active.len();
        let snapshot = Self::snapshot_events(&self.events);
        ScenarioReport { events: snapshot, timed_out, remaining_tasks }
    }

    fn copy_event(event: &ScenarioEvent) -> (copy: ScenarioEvent)
        ensures
            copy@ == event@,
    {
        match event {
            ScenarioEvent::TaskStarted { name } => ScenarioEvent::TaskStarted {
                name: name.clone(),
            },
            ScenarioEvent::TaskSucceeded { name } => ScenarioEvent::TaskSucceeded {
                name: name.clone(),
            },
            ScenarioEvent::TaskFailed { name, code } => ScenarioEvent::TaskFailed {
                name: name.clone(),
                code: code.clone(),
            },
            ScenarioEvent::TaskPanicked { name } => ScenarioEvent::TaskPanicked {
                name: name.clone(),
            },
            ScenarioEvent::TaskCancelled { name } => ScenarioEvent::TaskCancelled {
                name: name.clone(),
            },
            ScenarioEvent::ShutdownStarted => ScenarioEvent::ShutdownStarted,
            ScenarioEvent::ShutdownCompleted { timed_out } => ScenarioEvent::ShutdownCompleted {
                timed_out: *timed_out,
            },
        }
    }

    fn snapshot_events(events: &Vec<ScenarioEvent>) -> (snapshot: Vec<ScenarioEvent>)
        ensures
            event_views(snapshot@) == event_views(events@),
    {
        let mut snapshot: Vec<ScenarioEvent> = Vec::new();
        let mut i: usize = 0;
        while i < events.len()
            invariant
                i <= events@.len(),
                snapshot@.len() == i,
                forall|j: int| 0 <= j < i ==> (#[trigger] snapshot@[j])@ == events@[j]@,
            decreases events@.len() - i,
        {
            snapshot.push(Self::copy_event(&events[i]));
            i = i + 1;
        }
        assert(event_views(snapshot@) =~= event_views(events@));
        snapshot
    }
}

/// A probe takes an outcome where it holds none, and keeps what it holds.
pub proof fn probes_take_what_is_first(held: Option<TerminalOutcome>, outcome: TerminalOutcome)
    ensures
        commit(held, outcome).1 <==> held is None,
        held is None ==> commit(held, outcome).0 == Some(outcome),
        held is Some ==> commit(held, outcome).0 == held,
{
}

/// A stable identifier has one to 64 characters, each an ASCII letter, a
/// digit, a hyphen, an underscore or a dot.
pub proof fn stable_identifiers_are_plain(text: Seq<char>, c: char)
    ensures
        stable_char(c) <==> (0x61 <= c as u32 <= 0x7a || 0x41 <= c as u32 <= 0x5a || 0x30 <= c as u32
            <= 0x39 || c as u32 == 0x2d || c as u32 == 0x5f || c as u32 == 0x2e),
        stable_identifier(text) ==> 1 <= text.len() <= 64,
        stable_identifier(text) && text.contains(c) ==> stable_char(c),
        1 <= text.len() <= 64 && !stable_identifier(text) ==> exists|i: int|
            0 <= i < text.len() && !stable_char(#[trigger] text[i]),
{
}

/// The end of a task is recorded as what it was, under its name: a failure
/// with its code, a cancellation as such.
pub proof fn ends_are_recorded_as_they_were(name: Seq<char>, end: TaskEnd)
    ensures
        match end_event(name, end) {
            EventView::TaskSucceeded { name: told } => told == name && end is Succeeded,
            EventView::TaskFailed { name: told, code } => told == name && (end matches
                TaskEnd::Failed(error) && error.kind() is Failed && code == error.code()),
            EventView::TaskCancelled { name: told } => told == name && (end matches
                TaskEnd::Failed(error) && error.kind() is Cancelled),
            EventView::TaskPanicked { name: told } => told == name && end is Panicked,
            _ => false,
        },
{
}

/// Names are listed by their first character that differs; a name comes
/// before those that go on behind it.
pub proof fn names_are_listed_by_their_characters(
    front: Seq<char>,
    a: Seq<char>,
    b: Seq<char>,
)
    ensures
        b.len() > 0 ==> comes_before(front, front + b),
        !comes_before(front + b, front),
        a.len() > 0 && b.len() > 0 && a[0] != b[0] ==> (comes_before(front + a, front + b)
            <==> a[0] < b[0]),
    decreases front.len(),
{
    if front.len() > 0 {
        let rest = front.drop_first();
        names_are_listed_by_their_characters(rest, a, b);
        assert((front + a).drop_first() =~= rest + a);
        assert((front + b).drop_first() =~= rest + b);
    } else {
        assert(front + a =~= a);
        assert(front + b =~= b);
    }
}

/// A task that starts is on record behind everything else, and runs among
/// those that ran before.
pub proof fn starts_are_recorded(scenario: ScenarioModel, name: Seq<char>, event: EventView)
    ensures
        scenario.started(name).events == scenario.events.push(EventView::TaskStarted { name }),
        scenario.started(name).active.len() == scenario.active.len() + 1,
        scenario.started(name).transport_taken == scenario.transport_taken,
        scenario.recorded(event).events == scenario.events.push(event),
        scenario.recorded(event).active == scenario.active,
{
    place_is_within(scenario.active, name);
}

/// Tasks that are cancelled are recorded by their names, in their order.
pub proof fn cancellations_are_recorded(names: Seq<Seq<char>>, i: int)
    requires
        0 <= i < names.len(),
    ensures
        cancelled_events(names).len() == names.len(),
        cancelled_events(names)[i] == (EventView::TaskCancelled { name: names[i] }),
{
}

/// The failure of a transport in a scenario is named after the error itself.
pub proof fn transport_failures_are_named(error: TransportError)
    ensures
        transport_failure(error)@ == "transport-"@ + crate::runtime::error::transport_code(error)@,
{
    reveal_strlit("transport-");
    reveal_strlit("transport-already-connected");
    reveal_strlit("transport-invalid-message");
    reveal_strlit("transport-frame-too-large");
    reveal_strlit("transport-segment-limit");
    reveal_strlit("transport-cursor-bounds");
    reveal_strlit("transport-write-zero");
    reveal_strlit("transport-parse");
    reveal_strlit("transport-not-connected");
    reveal_strlit("transport-already-split");
    reveal_strlit("transport-timeout");
    reveal_strlit("transport-invalid-address");
    reveal_strlit("transport-io");
    reveal_strlit("already-connected");
    reveal_strlit("invalid-message");
    reveal_strlit("frame-too-large");
    reveal_strlit("segment-limit");
    reveal_strlit("cursor-bounds");
    reveal_strlit("write-zero");
    reveal_strlit("parse");
    reveal_strlit("not-connected");
    reveal_strlit("already-split");
    reveal_strlit("timeout");
    reveal_strlit("invalid-address");
    reveal_strlit("io");
    assert(transport_failure(error)@ =~= "transport-"@ + crate::runtime::error::transport_code(
        error,
    )@);
}

} // verus!
