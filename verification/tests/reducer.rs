use smb::runtime::reducer::{
    CallerOutcome, GenerationId, ReduceEffect, RequestEvent, RequestKey, RequestRecord,
    ResponseProgress, SendProgress, TerminalOutcome,
};

const GENERATION: GenerationId = GenerationId(7);
const KEY: RequestKey = RequestKey {
    generation: GENERATION,
    message_id: 41,
};

#[test]
fn response_cancel_deadline_and_disconnect_publish_at_most_once_in_every_order() {
    let terminals = [
        RequestEvent::FinalResponse { key: KEY },
        RequestEvent::Cancel,
        RequestEvent::Deadline,
        RequestEvent::Disconnect,
    ];
    for ordering in permutations(&terminals) {
        let mut request = RequestRecord::new(KEY);
        request.reduce(RequestEvent::Queued);
        request.reduce(RequestEvent::WriteComplete);
        let effects = ordering
            .into_iter()
            .map(|event| request.reduce(event))
            .collect::<Vec<_>>();
        assert_eq!(
            effects
                .iter()
                .filter(|effect| matches!(effect, ReduceEffect::Publish(_)))
                .count(),
            1,
            "ordering: {ordering:?}"
        );
        assert_eq!(request.response(), ResponseProgress::Final);
        assert!(!request.is_tombstone());
    }
}

#[test]
fn cancellation_before_commit_is_known_and_needs_no_tombstone() {
    let mut request = RequestRecord::new(KEY);
    assert_eq!(
        request.reduce(RequestEvent::Cancel),
        ReduceEffect::Publish(TerminalOutcome::Cancelled)
    );
    assert!(!request.is_tombstone());
}

#[test]
fn deadline_after_first_byte_is_unknown_until_late_response_settles_wire() {
    let mut request = RequestRecord::new(KEY);
    request.reduce(RequestEvent::WriteProgress { bytes: 1 });
    assert_eq!(
        request.reduce(RequestEvent::Deadline),
        ReduceEffect::Publish(TerminalOutcome::OutcomeUnknown)
    );
    assert!(request.is_tombstone());
    assert_eq!(
        request.reduce(RequestEvent::FinalResponse { key: KEY }),
        ReduceEffect::BookkeepingOnly
    );
    assert!(!request.is_tombstone());
    assert_eq!(
        request.caller(),
        CallerOutcome::Terminal(TerminalOutcome::OutcomeUnknown)
    );
}

#[test]
fn duplicate_terminal_events_are_bookkeeping_only() {
    let mut request = RequestRecord::new(KEY);
    assert_eq!(
        request.reduce(RequestEvent::FinalResponse { key: KEY }),
        ReduceEffect::Publish(TerminalOutcome::Response)
    );
    assert_eq!(
        request.reduce(RequestEvent::FinalResponse { key: KEY }),
        ReduceEffect::BookkeepingOnly
    );
    assert_eq!(
        request.reduce(RequestEvent::Cancel),
        ReduceEffect::BookkeepingOnly
    );
}

#[test]
fn async_pending_is_scoped_to_exact_request_and_generation() {
    let mut request = RequestRecord::new(KEY);
    let foreign = RequestKey::new(GenerationId::new(8), KEY.message_id);
    assert_eq!(
        request.reduce(RequestEvent::AsyncPending {
            key: foreign,
            async_id: 99,
        }),
        ReduceEffect::IgnoredForeignGeneration
    );
    assert_eq!(request.response(), ResponseProgress::NoResponse);

    let unknown = RequestKey::new(GENERATION, KEY.message_id + 1);
    assert_eq!(
        request.reduce(RequestEvent::AsyncPending {
            key: unknown,
            async_id: 99,
        }),
        ReduceEffect::BookkeepingOnly
    );
    assert_eq!(request.response(), ResponseProgress::NoResponse);

    request.reduce(RequestEvent::AsyncPending {
        key: KEY,
        async_id: 99,
    });
    assert_eq!(
        request.response(),
        ResponseProgress::AsyncPending { async_id: 99 }
    );
}

#[test]
fn write_progress_saturates_and_complete_is_monotonic() {
    let mut request = RequestRecord::new(KEY);
    request.reduce(RequestEvent::WriteProgress { bytes: usize::MAX });
    request.reduce(RequestEvent::WriteProgress { bytes: 1 });
    assert_eq!(request.send(), SendProgress::Partial { bytes: usize::MAX });
    request.reduce(RequestEvent::WriteComplete);
    request.reduce(RequestEvent::WriteProgress { bytes: 1 });
    assert_eq!(request.send(), SendProgress::Complete);
}

fn visit<T: Copy, const N: usize>(items: &mut [T; N], index: usize, output: &mut Vec<[T; N]>) {
    if index == N {
        output.push(*items);
        return;
    }
    for candidate in index..N {
        items.swap(index, candidate);
        visit(items, index + 1, output);
        items.swap(index, candidate);
    }
}

fn permutations<T: Copy, const N: usize>(items: &[T; N]) -> Vec<[T; N]> {
    let mut items = *items;
    let mut output = Vec::new();
    visit(&mut items, 0, &mut output);
    output
}
