use smb::resource::file_util::{AccessError, ReadAt, ReadAtChannel, WriteAt, WriteAtChannel};
use smb::runtime::error::TransportError;
use smb::scenario::{
    is_stable_identifier, LifecycleScenario, ScenarioError, ScenarioEvent, ScenarioTaskError,
    TaskEnd, TerminalOutcome, TerminalProbe,
};
use std::sync::{Arc, Mutex};

fn started(name: &str) -> ScenarioEvent {
    ScenarioEvent::TaskStarted {
        name: name.to_owned(),
    }
}

#[test]
fn scenarios_record_what_became_of_their_tasks() {
    let mut scenario = LifecycleScenario::new();
    scenario.spawn("reader".to_owned()).unwrap();
    scenario.spawn("closer".to_owned()).unwrap();
    scenario.task_ended("reader".to_owned(), TaskEnd::Succeeded);
    scenario.begin_shutdown();
    let report = scenario.shutdown(true);
    assert!(report.timed_out);
    assert_eq!(report.events[0], started("reader"));
    assert_eq!(report.events[1], started("closer"));
    assert_eq!(
        report.events[2],
        ScenarioEvent::TaskSucceeded {
            name: "reader".to_owned()
        }
    );
    assert_eq!(report.events[3], ScenarioEvent::ShutdownStarted);
    assert_eq!(
        report.events.last(),
        Some(&ScenarioEvent::ShutdownCompleted { timed_out: true })
    );
}

#[test]
fn failed_tasks_carry_a_stable_code() {
    let mut scenario = LifecycleScenario::new();
    scenario.spawn("writer".to_owned()).unwrap();
    scenario.task_ended(
        "writer".to_owned(),
        TaskEnd::Failed(ScenarioTaskError::from_transport(TransportError::WriteZero)),
    );
    scenario.task_joined("writer");
    let report = scenario.shutdown(false);
    assert_eq!(
        report.events[1],
        ScenarioEvent::TaskFailed {
            name: "writer".to_owned(),
            code: "transport-write-zero".to_owned(),
        }
    );
    assert_eq!(report.remaining_tasks, 0);
}

#[test]
fn task_names_are_stable_and_unique() {
    let mut scenario = LifecycleScenario::new();
    assert_eq!(
        scenario.spawn(String::new()),
        Err(ScenarioError::EmptyTaskName)
    );
    assert_eq!(
        scenario.spawn("No Spaces".to_owned()),
        Err(ScenarioError::InvalidTaskName)
    );
    assert_eq!(scenario.spawn("task".to_owned()), Ok(()));
    assert_eq!(
        scenario.spawn("task".to_owned()),
        Err(ScenarioError::DuplicateTaskName("task".to_owned()))
    );
    assert!(is_stable_identifier("a-b"));
    assert!(!is_stable_identifier("a b"));
}

#[test]
fn transports_are_taken_once() {
    let mut scenario = LifecycleScenario::default();
    assert_eq!(scenario.take_transport(), Ok(()));
    assert_eq!(
        scenario.take_transport(),
        Err(ScenarioError::TransportTaken)
    );
}

#[test]
fn the_first_outcome_is_kept() {
    let mut probe = TerminalProbe::default();
    assert_eq!(probe.outcome(), None);
    assert!(probe.try_commit(TerminalOutcome::Cancelled));
    assert!(!probe.try_commit(TerminalOutcome::Response));
    assert_eq!(probe.outcome(), Some(TerminalOutcome::Cancelled));
}

#[test]
fn all_who_share_a_probe_see_the_first_outcome() {
    let probe = Arc::new(Mutex::new(TerminalProbe::default()));
    let other = Arc::clone(&probe);
    assert!(probe.lock().unwrap().try_commit(TerminalOutcome::TimedOut));
    assert!(!other.lock().unwrap().try_commit(TerminalOutcome::Failed));
    assert!(!probe.lock().unwrap().try_commit(TerminalOutcome::TimedOut));
    assert_eq!(
        other.lock().unwrap().outcome(),
        Some(TerminalOutcome::TimedOut)
    );
    assert_eq!(
        probe.lock().unwrap().outcome(),
        Some(TerminalOutcome::TimedOut)
    );
}

struct Memory;

impl ReadAtChannel for Memory {
    fn read_at_channel(
        &self,
        buf: &mut [u8],
        offset: u64,
        channel: Option<u32>,
    ) -> Result<usize, AccessError> {
        assert_eq!(channel, None);
        for (index, byte) in buf.iter_mut().enumerate() {
            *byte = offset as u8 + index as u8;
        }
        Ok(buf.len())
    }
}

impl WriteAtChannel for Memory {
    fn write_at_channel(
        &self,
        buf: &[u8],
        offset: u64,
        channel: Option<u32>,
    ) -> Result<usize, AccessError> {
        if channel.is_some() || offset > 100 {
            return Err(AccessError::Failed);
        }
        Ok(buf.len())
    }
}

#[test]
fn plain_access_goes_over_no_channel_of_choice() {
    let mut buf = vec![0; 3];
    assert_eq!(Memory.read_at(&mut buf, 7), Ok(3));
    assert_eq!(buf, vec![7, 8, 9]);
    assert_eq!(Memory.write_at(&buf, 5), Ok(3));
    assert_eq!(Memory.write_at(&buf, 101), Err(AccessError::Failed));
}
