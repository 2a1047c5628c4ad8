use chain_indexer::retry::{next_fetch_action, FetchAction};

#[test]
fn transient_failures_back_off() {
    assert_eq!(next_fetch_action(1, true, 6, 500, 30_000), FetchAction::Retry { delay_ms: 500 });
    assert_eq!(next_fetch_action(3, true, 6, 500, 30_000), FetchAction::Retry { delay_ms: 2000 });
    assert_eq!(next_fetch_action(5, true, 6, 500, 30_000), FetchAction::Retry { delay_ms: 8000 });
}

#[test]
fn backoff_is_capped() {
    assert_eq!(next_fetch_action(8, true, 10, 500, 30_000), FetchAction::Retry { delay_ms: 30_000 });
    assert_eq!(next_fetch_action(1, true, 3, 100, 50), FetchAction::Retry { delay_ms: 50 });
    assert_eq!(next_fetch_action(40, true, 50, u64::MAX / 2, u64::MAX), FetchAction::Retry { delay_ms: u64::MAX });
}

#[test]
fn fatal_or_exhausted_fails() {
    assert_eq!(next_fetch_action(1, false, 6, 500, 30_000), FetchAction::Fail);
    assert_eq!(next_fetch_action(6, true, 6, 500, 30_000), FetchAction::Fail);
    assert_eq!(next_fetch_action(1, true, 0, 500, 30_000), FetchAction::Fail);
}
