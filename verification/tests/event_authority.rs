use smb::clock::{Duration, MonotonicTime};
use smb::runtime::event_authority::{
    AckOutcome, BreakKey, EventAuthority, EventEffect, EventInput, EventPolicy,
};
use smb::runtime::reducer::GenerationId;

const FIRST: GenerationId = GenerationId(1);
const SECOND: GenerationId = GenerationId(2);

fn key(generation: GenerationId, lease_key: u128) -> BreakKey {
    BreakKey {
        generation,
        lease_key,
        epoch: 7,
    }
}

fn authority(capacity: usize) -> EventAuthority {
    EventAuthority::new(
        FIRST,
        EventPolicy {
            capacity,
            ack_timeout: Duration::from_secs(3),
        },
    )
}

#[test]
fn invalidation_precedes_bounded_ack_and_publication() {
    let mut events = authority(2);
    let key = key(FIRST, 11);
    assert_eq!(
        events.reduce(EventInput::Receive {
            key,
            ack_required: true,
        }),
        vec![EventEffect::Invalidate(key)]
    );
    assert!(matches!(
        events.reduce(EventInput::Invalidated {
            key,
            now: MonotonicTime::zero(),
        })[..],
        [EventEffect::SendAck { key: found, .. }] if found == key
    ));
    assert_eq!(
        events.reduce(EventInput::AckCompleted {
            key,
            accepted: true,
        }),
        vec![EventEffect::Publish {
            key,
            ack: AckOutcome::Accepted,
        }]
    );
}

#[test]
fn duplicate_stale_and_over_capacity_events_are_explicit() {
    let mut events = authority(1);
    let first = key(FIRST, 11);
    let second = key(FIRST, 12);
    let stale = key(SECOND, 13);
    events.reduce(EventInput::Receive {
        key: first,
        ack_required: true,
    });
    assert!(
        events
            .reduce(EventInput::Receive {
                key: first,
                ack_required: true,
            })
            .is_empty()
    );
    assert_eq!(
        events.reduce(EventInput::Receive {
            key: second,
            ack_required: false,
        }),
        vec![EventEffect::QueueFull(second)]
    );
    assert_eq!(
        events.reduce(EventInput::Receive {
            key: stale,
            ack_required: false,
        }),
        vec![EventEffect::IgnoreStale(stale)]
    );
}

#[test]
fn deadline_generation_replacement_and_close_are_terminal() {
    let mut events = authority(2);
    let old = key(FIRST, 11);
    events.reduce(EventInput::Receive {
        key: old,
        ack_required: true,
    });
    events.reduce(EventInput::Invalidated {
        key: old,
        now: MonotonicTime::zero(),
    });
    assert!(
        events
            .reduce(EventInput::AckDeadline {
                key: old,
                now: MonotonicTime::zero().saturating_add(Duration::from_secs(2)),
            })
            .is_empty()
    );
    assert_eq!(
        events.reduce(EventInput::AckDeadline {
            key: old,
            now: MonotonicTime::zero().saturating_add(Duration::from_secs(3)),
        }),
        vec![EventEffect::Publish {
            key: old,
            ack: AckOutcome::TimedOut,
        }]
    );
    events.reduce(EventInput::ReplaceGeneration(SECOND));
    let current = key(SECOND, 12);
    assert_eq!(
        events.reduce(EventInput::Receive {
            key: current,
            ack_required: false,
        }),
        vec![EventEffect::Invalidate(current)]
    );
    assert_eq!(events.reduce(EventInput::Close), vec![EventEffect::Closed]);
    assert!(
        events
            .reduce(EventInput::Receive {
                key: current,
                ack_required: false,
            })
            .is_empty()
    );
}

#[test]
fn every_publication_follows_an_invalidation_of_its_own() {
    let mut events = authority(1);
    let key = key(FIRST, 4);
    let now = MonotonicTime::zero();
    let mut seen = Vec::new();
    for input in [
        EventInput::Invalidated { key, now },
        EventInput::Receive {
            key,
            ack_required: false,
        },
        EventInput::AckCompleted {
            key,
            accepted: true,
        },
        EventInput::Invalidated { key, now },
        EventInput::Invalidated { key, now },
        EventInput::Receive {
            key,
            ack_required: true,
        },
        EventInput::Invalidated { key, now },
        EventInput::AckCompleted {
            key,
            accepted: false,
        },
        EventInput::Close,
        EventInput::Receive {
            key,
            ack_required: false,
        },
    ] {
        seen.extend(events.reduce(input));
    }
    let deadline = now.saturating_add(Duration::from_secs(3));
    assert_eq!(
        seen,
        vec![
            EventEffect::Invalidate(key),
            EventEffect::Publish {
                key,
                ack: AckOutcome::NotRequired,
            },
            EventEffect::Invalidate(key),
            EventEffect::SendAck { key, deadline },
            EventEffect::Publish {
                key,
                ack: AckOutcome::Failed,
            },
            EventEffect::Closed,
        ]
    );
}
