use smb::clock::Duration;
use smb::runtime::error::{GenerationExitCause, PumpName, RuntimeError, TransportError};
use smb::runtime::engine::WriteEnd;
use smb::runtime::owner::{
    admission_refused, control_refused, never_started, vanished, write_end, ActiveWrite,
    CancelledWrite, InboundLane, IoEvent, LaneRefusal, LastWrite, RuntimeConfig,
};
use smb::runtime::reducer::{GenerationId, RequestKey};

fn config() -> RuntimeConfig {
    RuntimeConfig::production(
        GenerationId::new(1),
        10,
        32,
        32,
        Duration::from_secs(5),
        1024,
        Some(2),
    )
}

fn key() -> RequestKey {
    RequestKey::new(GenerationId::new(1), 1)
}

#[test]
fn frames_are_released_in_the_order_of_their_arrival() {
    let config = config();
    let mut lane: InboundLane<&str> = InboundLane::new();
    let mut places = Vec::new();
    for _ in 0..2 {
        assert!(lane.may_read(&config, false, true));
        lane.frame_received(&config);
        assert!(lane.may_begin(&config));
        places.push(lane.begin(&config).unwrap());
    }
    assert!(lane.frame_prepared(places[1], "second").is_empty());
    assert_eq!(
        lane.frame_prepared(places[0], "first"),
        vec!["first", "second"]
    );
}

#[test]
fn cancellation_before_first_progress_is_provably_zero_byte() {
    let write = ActiveWrite::new(key());
    assert_eq!(write.cancelled(), CancelledWrite::GiveUp);
}

#[test]
fn cancellation_after_first_progress_finishes_active_frame() {
    let mut write = ActiveWrite::new(key());
    write.observe(1);
    assert_eq!(write.cancelled(), CancelledWrite::Finish);
    assert_eq!(
        write.report(),
        Some(IoEvent::WriteProgress {
            key: key(),
            bytes: 1
        })
    );
    assert_eq!(write.report(), None);
    assert_eq!(
        write.finished(Some(Ok(()))),
        IoEvent::WriteComplete(key())
    );
}

#[test]
fn failed_writes_name_their_pump() {
    let write = ActiveWrite::new(key());
    assert_eq!(
        write.finished(Some(Err(TransportError::WriteZero))),
        IoEvent::Failed {
            pump: PumpName::Write,
            error: TransportError::WriteZero,
        }
    );
    assert_eq!(write.finished(None), IoEvent::WriteCancelled(key()));
}

#[test]
fn full_and_closed_lanes_are_told_apart() {
    assert_eq!(
        admission_refused(LaneRefusal::Full),
        RuntimeError::AdmissionBackpressure
    );
    assert_eq!(admission_refused(LaneRefusal::Closed), RuntimeError::Closed);
    assert_eq!(
        control_refused(LaneRefusal::Full),
        RuntimeError::ControlBackpressure
    );
    assert_eq!(control_refused(LaneRefusal::Closed), RuntimeError::Closed);
}

#[test]
fn writers_end_as_they_were_left() {
    assert_eq!(write_end(false, LastWrite::Idle), WriteEnd::Joined);
    assert_eq!(write_end(true, LastWrite::Idle), WriteEnd::Panicked);
    assert_eq!(write_end(false, LastWrite::Panicked), WriteEnd::Panicked);
    assert_eq!(
        write_end(false, LastWrite::DeadlinePassed),
        WriteEnd::TimedOut
    );
}

#[test]
fn exits_without_an_owner_are_typed() {
    let generation = GenerationId::new(3);
    assert_eq!(vanished(generation).generation, generation);
    assert!(matches!(
        never_started(generation).cause,
        GenerationExitCause::Transport(_)
    ));
}
