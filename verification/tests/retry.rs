use pool_sync::errors::PoolSyncError;
use pool_sync::pools::pool_builder::{
    after_failure, after_read_failure, draw_jitter, read_failure_step, retry_step, ReadAction,
    ReadFailure, RetryAction, RetryState, INITIAL_BACKOFF, MAX_JITTER, MAX_RETRIES,
};

#[test]
fn retry_constants() {
    assert_eq!(INITIAL_BACKOFF, 1000);
    assert_eq!(MAX_RETRIES, 5);
    assert_eq!(MAX_JITTER, 100);
    assert_eq!(RetryState::new(), RetryState { retry_count: 0, backoff: 1000 });
}

#[test]
fn delays_double_from_one_second() {
    let mut state = RetryState::new();
    let mut delays = Vec::new();
    loop {
        let (next, action) = retry_step(state, 7);
        match action {
            RetryAction::RetryAfter(ms) => delays.push(ms),
            RetryAction::GiveUp => break,
        }
        state = next;
    }
    assert_eq!(delays, vec![1007, 2007, 4007, 8007, 16007]);
    assert_eq!(state, RetryState { retry_count: 5, backoff: 32000 });
}

#[test]
fn the_batch_is_given_up_after_five_retries() {
    let state = RetryState { retry_count: 5, backoff: 32000 };
    assert_eq!(retry_step(state, 0), (state, RetryAction::GiveUp));
    let late = RetryState { retry_count: 9, backoff: 1 };
    assert_eq!(retry_step(late, 100), (late, RetryAction::GiveUp));
    let last = RetryState { retry_count: 4, backoff: 16000 };
    assert_eq!(
        retry_step(last, 100),
        (RetryState { retry_count: 5, backoff: 32000 }, RetryAction::RetryAfter(16100))
    );
}

#[test]
fn delays_saturate_instead_of_wrapping() {
    let state = RetryState { retry_count: 0, backoff: u64::MAX - 5 };
    assert_eq!(
        retry_step(state, 100),
        (RetryState { retry_count: 1, backoff: u64::MAX }, RetryAction::RetryAfter(u64::MAX))
    );
}

#[test]
fn drawn_jitter_stays_small() {
    let mut seen = std::collections::HashSet::new();
    for _ in 0..2000 {
        let j = draw_jitter();
        assert!(j <= MAX_JITTER);
        seen.insert(j);
    }
    assert!(seen.len() > 1);
}

#[test]
fn a_failure_is_followed_by_a_jittered_delay() {
    for _ in 0..200 {
        let (next, action) = after_failure(RetryState::new());
        assert_eq!(next, RetryState { retry_count: 1, backoff: 2000 });
        match action {
            RetryAction::RetryAfter(ms) => assert!((1000..=1100).contains(&ms)),
            RetryAction::GiveUp => panic!("gave up before the first retry"),
        }
    }
    let spent = RetryState { retry_count: 5, backoff: 32000 };
    assert_eq!(after_failure(spent), (spent, RetryAction::GiveUp));
}

#[test]
fn a_remote_failure_is_retried_with_a_growing_delay() {
    assert_eq!(
        read_failure_step(RetryState::new(), ReadFailure::Remote, 7),
        (RetryState { retry_count: 1, backoff: 2000 }, ReadAction::RetryAfter(1007))
    );
    let last = RetryState { retry_count: 4, backoff: 16000 };
    assert_eq!(
        read_failure_step(last, ReadFailure::Remote, 0),
        (RetryState { retry_count: 5, backoff: 32000 }, ReadAction::RetryAfter(16000))
    );
}

#[test]
fn a_remote_failure_after_the_last_retry_gives_the_batch_up() {
    let spent = RetryState { retry_count: 5, backoff: 32000 };
    assert_eq!(read_failure_step(spent, ReadFailure::Remote, 50), (spent, ReadAction::GiveUp));
    assert_eq!(after_read_failure(spent, ReadFailure::Remote), (spent, ReadAction::GiveUp));
}

#[test]
fn an_answer_of_the_wrong_shape_is_never_retried() {
    let failure = ReadFailure::Rejected(PoolSyncError::MalformedRecord);
    for state in [RetryState::new(), RetryState { retry_count: 5, backoff: 32000 }] {
        assert_eq!(
            read_failure_step(state, failure, 33),
            (state, ReadAction::Abort(PoolSyncError::MalformedRecord))
        );
        assert_eq!(
            after_read_failure(state, failure),
            (state, ReadAction::Abort(PoolSyncError::MalformedRecord))
        );
    }
}

#[test]
fn a_fresh_remote_failure_waits_between_one_second_and_a_tenth_more() {
    for _ in 0..100 {
        let (next, action) = after_read_failure(RetryState::new(), ReadFailure::Remote);
        assert_eq!(next, RetryState { retry_count: 1, backoff: 2000 });
        match action {
            ReadAction::RetryAfter(ms) => assert!((1000..=1100).contains(&ms)),
            other => panic!("unexpected action {:?}", other),
        }
    }
}
