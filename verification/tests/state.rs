use smb::clock::{Duration, MonotonicTime};
use smb::runtime::reducer::{
    GenerationId, ReduceEffect, RequestKey, RequestRecord, ResponseProgress, TerminalOutcome,
};
use smb::runtime::state::{
    AdmissionError, AdmissionLimits, GenerationState, OwnerEffect, OwnerEvent, PreparationPlan,
    RequestProgress, ResponseEvent,
};

const GENERATION: GenerationId = GenerationId(3);
const LIMITS: AdmissionLimits = AdmissionLimits {
    max_operations: 2,
    max_payload_bytes: 1024,
};
fn drain_timeout() -> Duration {
    Duration::from_secs(5)
}

#[derive(Clone, Copy)]
enum RaceEvent {
    Final,
    Cancel,
    Deadline,
}

fn state() -> GenerationState {
    GenerationState::new(GENERATION, 40, 4, 4, LIMITS, drain_timeout())
}

fn admitted(state: &mut GenerationState, payload_bytes: u64, charge: u16) -> RequestKey {
    admit_with_deadline(state, payload_bytes, charge, None)
}

fn admit_with_deadline(
    state: &mut GenerationState,
    payload_bytes: u64,
    charge: u16,
    caller_deadline: Option<MonotonicTime>,
) -> RequestKey {
    match state.reduce(OwnerEvent::Admit {
        payload_bytes,
        credit_charge: charge,
        caller_deadline,
    })[..]
    {
        [OwnerEffect::Admitted(plan)] => plan.key,
        ref effects => panic!("expected admission, got {effects:?}"),
    }
}

#[test]
fn admission_atomically_reserves_identity_credits_and_both_limits() {
    let mut state = state();
    let key = admitted(&mut state, 512, 2);
    assert_eq!(key, RequestKey::new(GENERATION, 40));
    assert_eq!(state.available_credits(), 2);
    assert_eq!(state.admitted_operations(), 1);
    assert_eq!(state.retained_payload_bytes(), 512);
    assert!(state.request(key).is_some());
}

#[test]
fn multi_credit_admission_consumes_the_full_message_id_sequence_window() {
    let mut state = GenerationState::new(GENERATION, 40, 32, 32, LIMITS, drain_timeout());
    let first = admitted(&mut state, 0, 16);
    let second = admitted(&mut state, 0, 1);
    assert_eq!(first.message_id, 40);
    assert_eq!(second.message_id, 56);
}

#[test]
fn owner_requests_target_credit_window_once_while_grant_is_pending() {
    let mut state = GenerationState::new(GENERATION, 0, 4, 128, LIMITS, drain_timeout());
    let first = state.reduce(OwnerEvent::Admit {
        payload_bytes: 0,
        credit_charge: 2,
        caller_deadline: None,
    });
    let second = state.reduce(OwnerEvent::Admit {
        payload_bytes: 0,
        credit_charge: 1,
        caller_deadline: None,
    });
    assert!(matches!(
        first.as_slice(),
        [OwnerEffect::Admitted(PreparationPlan {
            credit_charge: 2,
            credit_request: 126,
            ..
        })]
    ));
    assert!(matches!(
        second.as_slice(),
        [OwnerEffect::Admitted(PreparationPlan {
            credit_charge: 1,
            credit_request: 1,
            ..
        })]
    ));
}

#[test]
fn every_rejection_leaves_all_owner_counters_unchanged() {
    let cases = [
        (0, 0, AdmissionError::InvalidCreditCharge),
        (
            0,
            5,
            AdmissionError::CreditsExhausted {
                available: 4,
                requested: 5,
            },
        ),
        (1025, 1, AdmissionError::PayloadBytesExhausted),
    ];
    for (bytes, charge, expected) in cases {
        let mut state = state();
        assert_eq!(
            state.reduce(OwnerEvent::Admit {
                payload_bytes: bytes,
                credit_charge: charge,
                caller_deadline: None,
            }),
            vec![OwnerEffect::AdmissionRejected(expected)]
        );
        assert_eq!(
            (state.available_credits(), state.admitted_operations()),
            (4, 0)
        );
        assert_eq!(state.retained_payload_bytes(), 0);
    }
}

#[test]
fn operation_limit_rejects_without_consuming_next_message_id() {
    let mut state = GenerationState::new(
        GENERATION,
        9,
        3,
        3,
        AdmissionLimits {
            max_operations: 1,
            max_payload_bytes: 10,
        },
        drain_timeout(),
    );
    let first = admitted(&mut state, 1, 1);
    assert_eq!(
        state.reduce(OwnerEvent::Admit {
            payload_bytes: 1,
            credit_charge: 1,
            caller_deadline: None,
        }),
        vec![OwnerEffect::AdmissionRejected(
            AdmissionError::OperationsExhausted
        )]
    );
    state.reduce(OwnerEvent::Cancel {
        key: first,
        now: MonotonicTime::zero(),
    });
    assert_eq!(admitted(&mut state, 1, 1).message_id, 10);
}

#[test]
fn message_id_max_is_allocated_once_and_never_wraps() {
    let mut state = GenerationState::new(GENERATION, u64::MAX, 2, 2, LIMITS, drain_timeout());
    let key = admitted(&mut state, 0, 1);
    assert_eq!(key.message_id, u64::MAX);
    state.reduce(OwnerEvent::Cancel {
        key,
        now: MonotonicTime::zero(),
    });
    assert_eq!(
        state.reduce(OwnerEvent::Admit {
            payload_bytes: 0,
            credit_charge: 1,
            caller_deadline: None,
        }),
        vec![OwnerEffect::AdmissionRejected(
            AdmissionError::MessageIdExhausted
        )]
    );
}

#[test]
fn serialized_concurrent_submissions_receive_unique_monotonic_ids() {
    let mut state = GenerationState::new(
        GENERATION,
        100,
        64,
        64,
        AdmissionLimits {
            max_operations: 64,
            max_payload_bytes: 64,
        },
        drain_timeout(),
    );
    let keys = (0..64).map(|_| admitted(&mut state, 1, 1)).collect::<Vec<_>>();
    assert_eq!(
        keys.iter().map(|key| key.message_id).collect::<Vec<_>>(),
        (100..164).collect::<Vec<_>>()
    );
}

#[test]
fn zero_byte_cancel_and_prepare_failure_roll_back_exactly_once() {
    for event in [
        OwnerEvent::Cancel {
            key: RequestKey::new(GENERATION, 40),
            now: MonotonicTime::zero(),
        },
        OwnerEvent::PrepareFailed {
            key: RequestKey::new(GENERATION, 40),
        },
    ] {
        let mut state = state();
        let key = admitted(&mut state, 600, 3);
        assert_eq!(key.message_id, 40);
        let first = state.reduce(event);
        assert!(first.contains(&OwnerEffect::ReservationRolledBack(key)));
        assert_eq!(
            (state.available_credits(), state.admitted_operations()),
            (4, 0)
        );
        assert_eq!(state.retained_payload_bytes(), 0);
        let second = state.reduce(event);
        assert!(!second.contains(&OwnerEffect::ReservationRolledBack(key)));
        assert_eq!(
            (state.available_credits(), state.admitted_operations()),
            (4, 0)
        );
    }
}

#[test]
fn first_write_byte_forbids_local_credit_rollback() {
    let mut state = state();
    let key = admitted(&mut state, 100, 2);
    state.reduce(OwnerEvent::Request {
        key,
        event: RequestProgress::WriteProgress { bytes: 1 },
    });
    let effects = state.reduce(OwnerEvent::Cancel {
        key,
        now: MonotonicTime::zero(),
    });
    assert!(!effects.contains(&OwnerEffect::ReservationRolledBack(key)));
    assert_eq!(state.available_credits(), 2);
    assert_eq!(state.admitted_operations(), 1);
}

#[test]
fn pending_and_late_final_apply_grants_before_terminal_bookkeeping() {
    let mut state = state();
    let key = admitted(&mut state, 100, 2);
    state.reduce(OwnerEvent::Request {
        key,
        event: RequestProgress::WriteComplete,
    });
    state.reduce(OwnerEvent::Cancel {
        key,
        now: MonotonicTime::zero(),
    });
    let pending = state.reduce(OwnerEvent::Response {
        key,
        event: ResponseEvent::Pending { async_id: 7 },
        credit_grant: 1,
    });
    assert!(matches!(
        pending.as_slice(),
        [
            OwnerEffect::CreditGrantApplied { available: 3, .. },
            OwnerEffect::Request { .. }
        ]
    ));
    let final_response = state.reduce(OwnerEvent::Response {
        key,
        event: ResponseEvent::Final,
        credit_grant: 2,
    });
    assert!(matches!(
        final_response.as_slice(),
        [
            OwnerEffect::CreditGrantApplied { available: 5, .. },
            OwnerEffect::Request {
                effect: ReduceEffect::BookkeepingOnly,
                ..
            }
        ]
    ));
    assert_eq!(state.admitted_operations(), 0);
    assert_eq!(state.retained_payload_bytes(), 0);
    assert_eq!(
        state.terminal_outcome(key),
        Some(TerminalOutcome::OutcomeUnknown)
    );
}

#[test]
fn duplicate_responses_never_double_grant_credits() {
    let mut state = state();
    let key = admitted(&mut state, 0, 1);
    let event = OwnerEvent::Response {
        key,
        event: ResponseEvent::Final,
        credit_grant: 4,
    };
    state.reduce(event);
    assert_eq!(state.available_credits(), 7);
    assert_eq!(
        state.reduce(event),
        vec![OwnerEffect::DuplicateResponse(key)]
    );
    assert_eq!(state.available_credits(), 7);
}

#[test]
fn early_response_proves_commitment_before_write_pump_completion_arrives() {
    let mut state = state();
    let key = admitted(&mut state, 100, 2);
    state.reduce(OwnerEvent::Response {
        key,
        event: ResponseEvent::Pending { async_id: 9 },
        credit_grant: 1,
    });
    let effects = state.reduce(OwnerEvent::Cancel {
        key,
        now: MonotonicTime::zero(),
    });
    assert!(!effects.contains(&OwnerEffect::ReservationRolledBack(key)));
    assert_eq!(state.available_credits(), 3);
    assert_eq!(state.admitted_operations(), 1);
    assert_eq!(
        state.terminal_outcome(key),
        Some(TerminalOutcome::OutcomeUnknown)
    );
}

#[test]
fn credit_overflow_is_typed_and_does_not_advance_response_state() {
    let mut state =
        GenerationState::new(GENERATION, 1, u32::MAX, u32::MAX, LIMITS, drain_timeout());
    let key = admitted(&mut state, 0, 1);
    assert_eq!(
        state.reduce(OwnerEvent::Response {
            key,
            event: ResponseEvent::Final,
            credit_grant: 2,
        }),
        vec![
            OwnerEffect::CreditLedgerOverflow {
                key,
                available: u32::MAX - 1,
                grant: 2,
            },
            OwnerEffect::GenerationUnhealthy { key },
        ]
    );
    assert_eq!(
        state.request(key).map(RequestRecord::response),
        Some(ResponseProgress::NoResponse)
    );
    assert_eq!(state.admitted_operations(), 1);
}

#[test]
fn foreign_and_unknown_responses_cannot_mutate_credit_pool() {
    let mut state = state();
    let foreign = RequestKey::new(GenerationId::new(4), 40);
    let unknown = RequestKey::new(GENERATION, 99);
    for key in [foreign, unknown] {
        state.reduce(OwnerEvent::Response {
            key,
            event: ResponseEvent::Final,
            credit_grant: u16::MAX,
        });
        assert_eq!(state.available_credits(), 4);
    }
}

#[test]
fn async_id_index_is_unique_stable_and_removed_by_final_response() {
    let mut state = state();
    let first = admitted(&mut state, 10, 1);
    let second = admitted(&mut state, 10, 1);
    state.reduce(OwnerEvent::Response {
        key: first,
        event: ResponseEvent::Pending { async_id: 70 },
        credit_grant: 1,
    });
    assert_eq!(state.request_for_async_id(70), Some(first));
    assert_eq!(
        state.reduce(OwnerEvent::Response {
            key: second,
            event: ResponseEvent::Pending { async_id: 70 },
            credit_grant: 1,
        }),
        vec![
            OwnerEffect::AsyncIdConflict {
                async_id: 70,
                existing: first,
                incoming: second,
            },
            OwnerEffect::GenerationUnhealthy { key: second },
        ]
    );
    assert_eq!(
        state.reduce(OwnerEvent::Response {
            key: first,
            event: ResponseEvent::Pending { async_id: 71 },
            credit_grant: 1,
        }),
        vec![
            OwnerEffect::AsyncIdChanged {
                key: first,
                existing: 70,
                incoming: 71,
            },
            OwnerEffect::GenerationUnhealthy { key: first },
        ]
    );
    state.reduce(OwnerEvent::Response {
        key: first,
        event: ResponseEvent::Final,
        credit_grant: 1,
    });
    assert_eq!(state.request_for_async_id(70), None);
}

#[test]
fn repeated_pending_responses_keep_one_index_but_apply_each_credit_grant() {
    let mut state = state();
    let key = admitted(&mut state, 0, 2);
    for expected in [3, 4] {
        let effects = state.reduce(OwnerEvent::Response {
            key,
            event: ResponseEvent::Pending { async_id: 70 },
            credit_grant: 1,
        });
        assert!(matches!(
            effects.first(),
            Some(OwnerEffect::CreditGrantApplied { available, .. }) if *available == expected
        ));
        assert_eq!(state.request_for_async_id(70), Some(key));
    }
}

#[test]
fn owner_deadline_heap_rolls_back_uncommitted_request_once() {
    let mut state = state();
    let deadline = MonotonicTime::zero().saturating_add(Duration::from_millis(10));
    let key = admit_with_deadline(&mut state, 200, 2, Some(deadline));
    assert_eq!(state.next_deadline(), Some(deadline));
    assert!(
        state
            .reduce(OwnerEvent::AdvanceTime {
                now: MonotonicTime::zero().saturating_add(Duration::from_millis(9)),
            })
            .is_empty()
    );
    let effects = state.reduce(OwnerEvent::AdvanceTime { now: deadline });
    assert!(effects.contains(&OwnerEffect::Request {
        key,
        effect: ReduceEffect::Publish(TerminalOutcome::TimedOut),
    }));
    assert!(effects.contains(&OwnerEffect::ReservationRolledBack(key)));
    assert_eq!(state.available_credits(), 4);
    assert_eq!(state.retained_payload_bytes(), 0);
}

#[test]
fn committed_deadline_creates_payload_free_tombstone_and_drain_expiry_is_fatal() {
    let mut state = state();
    let deadline = MonotonicTime::zero().saturating_add(Duration::from_millis(10));
    let key = admit_with_deadline(&mut state, 200, 2, Some(deadline));
    state.reduce(OwnerEvent::Request {
        key,
        event: RequestProgress::WriteComplete,
    });
    let effects = state.reduce(OwnerEvent::AdvanceTime { now: deadline });
    assert!(effects.contains(&OwnerEffect::BestEffortWireCancel(key)));
    assert_eq!(state.retained_payload_bytes(), 0);
    assert!(state.request(key).is_some_and(RequestRecord::is_tombstone));
    let drain = deadline.saturating_add(drain_timeout());
    assert_eq!(state.next_deadline(), Some(drain));
    let effects = state.reduce(OwnerEvent::AdvanceTime { now: drain });
    assert_eq!(effects, vec![OwnerEffect::GenerationUnhealthy { key }]);
    assert!(state.is_unhealthy());
}

#[test]
fn late_final_settles_tombstone_and_makes_drain_entry_stale() {
    let mut state = state();
    let deadline = MonotonicTime::zero().saturating_add(Duration::from_millis(10));
    let key = admit_with_deadline(&mut state, 10, 1, Some(deadline));
    state.reduce(OwnerEvent::Request {
        key,
        event: RequestProgress::WriteComplete,
    });
    state.reduce(OwnerEvent::AdvanceTime { now: deadline });
    state.reduce(OwnerEvent::Response {
        key,
        event: ResponseEvent::Final,
        credit_grant: 1,
    });
    let effects = state.reduce(OwnerEvent::AdvanceTime {
        now: deadline.saturating_add(drain_timeout()),
    });
    assert_eq!(effects, vec![OwnerEffect::StaleDeadlineIgnored(key)]);
    assert!(!state.is_unhealthy());
    assert!(!state.request(key).is_some_and(RequestRecord::is_tombstone));
}

#[test]
fn cancel_control_is_deduplicated_and_committed_cancel_gets_one_wire_obligation() {
    let mut state = state();
    let key = admitted(&mut state, 10, 1);
    state.reduce(OwnerEvent::Request {
        key,
        event: RequestProgress::WriteProgress { bytes: 1 },
    });
    let first = state.reduce(OwnerEvent::Cancel {
        key,
        now: MonotonicTime::zero(),
    });
    assert_eq!(
        first
            .iter()
            .filter(|effect| **effect == OwnerEffect::BestEffortWireCancel(key))
            .count(),
        1
    );
    assert_eq!(
        state.reduce(OwnerEvent::Cancel {
            key,
            now: MonotonicTime::zero(),
        }),
        vec![OwnerEffect::DuplicateCancel(key)]
    );
}

#[test]
fn pending_response_releases_outbound_payload_before_tombstone() {
    let mut state = state();
    let key = admitted(&mut state, 512, 1);
    state.reduce(OwnerEvent::Response {
        key,
        event: ResponseEvent::Pending { async_id: 8 },
        credit_grant: 1,
    });
    assert_eq!(state.retained_payload_bytes(), 0);
    state.reduce(OwnerEvent::Cancel {
        key,
        now: MonotonicTime::zero(),
    });
    assert!(state.request(key).is_some_and(RequestRecord::is_tombstone));
    assert_eq!(state.retained_payload_bytes(), 0);
}

#[test]
fn response_cancel_and_deadline_orders_publish_once_and_settle_final_once() {
    let orders = [
        [RaceEvent::Final, RaceEvent::Cancel, RaceEvent::Deadline],
        [RaceEvent::Final, RaceEvent::Deadline, RaceEvent::Cancel],
        [RaceEvent::Cancel, RaceEvent::Final, RaceEvent::Deadline],
        [RaceEvent::Cancel, RaceEvent::Deadline, RaceEvent::Final],
        [RaceEvent::Deadline, RaceEvent::Final, RaceEvent::Cancel],
        [RaceEvent::Deadline, RaceEvent::Cancel, RaceEvent::Final],
    ];
    for order in orders {
        let mut state = state();
        let key = admit_with_deadline(&mut state, 0, 1, Some(MonotonicTime::zero()));
        state.reduce(OwnerEvent::Request {
            key,
            event: RequestProgress::WriteComplete,
        });
        let mut effects = Vec::new();
        for event in order {
            effects.extend(match event {
                RaceEvent::Final => state.reduce(OwnerEvent::Response {
                    key,
                    event: ResponseEvent::Final,
                    credit_grant: 1,
                }),
                RaceEvent::Cancel => state.reduce(OwnerEvent::Cancel {
                    key,
                    now: MonotonicTime::zero(),
                }),
                RaceEvent::Deadline => state.reduce(OwnerEvent::AdvanceTime {
                    now: MonotonicTime::zero(),
                }),
            });
        }
        assert_eq!(
            effects
                .iter()
                .filter(|effect| matches!(
                    effect,
                    OwnerEffect::Request {
                        effect: ReduceEffect::Publish(_),
                        ..
                    }
                ))
                .count(),
            1
        );
        assert_eq!(
            effects
                .iter()
                .filter(|effect| matches!(effect, OwnerEffect::CreditGrantApplied { .. }))
                .count(),
            1
        );
        assert_eq!(state.admitted_operations(), 0);
        assert!(!state.request(key).is_some_and(RequestRecord::is_tombstone));
    }
}

#[test]
fn disconnect_completes_open_callers_and_releases_admission() {
    let mut state = state();
    let first = admitted(&mut state, 400, 1);
    let second = admitted(&mut state, 500, 1);
    state.reduce(OwnerEvent::Response {
        key: first,
        event: ResponseEvent::Final,
        credit_grant: 1,
    });
    let effects = state.reduce(OwnerEvent::Disconnect);
    assert_eq!(
        effects
            .iter()
            .filter(|effect| matches!(
                effect,
                OwnerEffect::Request {
                    effect: ReduceEffect::Publish(_),
                    ..
                }
            ))
            .count(),
        1
    );
    assert_eq!(state.unresolved_callers(), 0);
    assert_eq!(state.admitted_operations(), 0);
    assert_eq!(state.retained_payload_bytes(), 0);
    assert_eq!(
        state.terminal_outcome(first),
        Some(TerminalOutcome::Response)
    );
    assert_eq!(
        state.terminal_outcome(second),
        Some(TerminalOutcome::GenerationLost)
    );
}

#[test]
fn available_credits_follow_charges_rollbacks_and_grants() {
    let mut state = state();
    let now = MonotonicTime::zero();
    let mut effects = Vec::new();
    for event in [
        OwnerEvent::Admit {
            payload_bytes: 0,
            credit_charge: 2,
            caller_deadline: None,
        },
        OwnerEvent::Admit {
            payload_bytes: 0,
            credit_charge: 1,
            caller_deadline: None,
        },
        OwnerEvent::PrepareFailed {
            key: RequestKey::new(GENERATION, 40),
        },
        OwnerEvent::Cancel {
            key: RequestKey::new(GENERATION, 40),
            now,
        },
        OwnerEvent::Response {
            key: RequestKey::new(GENERATION, 42),
            event: ResponseEvent::Final,
            credit_grant: 5,
        },
        OwnerEvent::Disconnect,
    ] {
        effects.extend(state.reduce(event));
    }
    let mut expected: i64 = 4;
    let mut rolled_back = 0;
    for effect in effects {
        match effect {
            OwnerEffect::Admitted(plan) => expected -= plan.credit_charge as i64,
            OwnerEffect::ReservationRolledBack(key) => {
                assert_eq!(key, RequestKey::new(GENERATION, 40));
                rolled_back += 1;
                expected += 2;
            }
            OwnerEffect::CreditGrantApplied { grant, .. } => expected += grant as i64,
            _ => {}
        }
    }
    assert_eq!(rolled_back, 1);
    assert_eq!(expected, 8);
    assert_eq!(state.available_credits(), 8);
}
