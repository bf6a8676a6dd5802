use channel_pool::failure::{HealthCheckError, RequestError, RequestFailure, RetryAction};
use channel_pool::retry::{
    backoff_within, classify, classify_status, RetryState, RetryStep, DEFAULT_BACKOFF_NANOS,
    DEFAULT_RETRIES, MAX_JITTER_MILLIS,
};
use std::time::Duration;
use tonic::transport::Endpoint;
use tonic::{Code, Status};

fn transport_error() -> tonic::transport::Error {
    match Endpoint::from_shared("not a uri") {
        Err(error) => error,
        Ok(_) => panic!("an address with spaces in it was accepted"),
    }
}

fn closure_status(error: RequestError<Status>) -> Status {
    match error {
        RequestError::FromClosure(status) => status,
        RequestError::Tonic(error) => panic!("the request ended with a transport error: {}", error),
    }
}

fn peer() -> String {
    String::from("http://peer-1:6335/")
}

fn state(max_timeout: Duration, retries: usize) -> RetryState {
    RetryState::new(peer(), max_timeout, retries)
}

#[test]
fn retry_constants() {
    assert_eq!(DEFAULT_RETRIES, 2);
    assert_eq!(DEFAULT_BACKOFF_NANOS, 100_000_000);
    assert_eq!(MAX_JITTER_MILLIS, 100);
}

#[test]
fn dropped_pool_fails_the_request() {
    let failure = RequestFailure::HealthCheck(HealthCheckError::NoChannel);
    match classify(failure, &peer()) {
        RetryAction::Fail(status) => {
            assert_eq!(status.code(), Code::Unavailable);
            assert_eq!(status.message(), "Peer http://peer-1:6335/ is not available");
        }
        other => panic!("unexpected action {:?}", other),
    }
}

#[test]
fn probe_connect_error_retries_immediately() {
    let failure = RequestFailure::HealthCheck(HealthCheckError::ConnectionError(transport_error()));
    match classify(failure, &peer()) {
        RetryAction::RetryImmediately(status) => {
            assert_eq!(status.code(), Code::Unavailable);
            assert_eq!(
                status.message(),
                "Failed to connect to http://peer-1:6335/, error: invalid URI"
            );
        }
        other => panic!("unexpected action {:?}", other),
    }
}

#[test]
fn probe_request_error_retries_with_backoff() {
    let failure = RequestFailure::HealthCheck(HealthCheckError::RequestError(
        Status::deadline_exceeded("Healthcheck timeout 2000ms exceeded"),
    ));
    match classify(failure, &peer()) {
        RetryAction::RetryWithBackoff(status) => {
            assert_eq!(status.code(), Code::DeadlineExceeded);
            assert_eq!(status.message(), "Healthcheck timeout 2000ms exceeded");
        }
        other => panic!("unexpected action {:?}", other),
    }
}

#[test]
fn request_connect_error_retries_with_backoff() {
    let failure = RequestFailure::RequestConnection(transport_error());
    match classify(failure, &peer()) {
        RetryAction::RetryWithBackoff(status) => {
            assert_eq!(status.code(), Code::Unavailable);
            assert_eq!(
                status.message(),
                "Failed to connect to http://peer-1:6335/, error: invalid URI"
            );
        }
        other => panic!("unexpected action {:?}", other),
    }
}

#[test]
fn cancelled_and_unavailable_retry_with_backoff() {
    for status in [Status::cancelled("gone"), Status::unavailable("busy")] {
        let code = status.code();
        match classify(RequestFailure::RequestError(status), &peer()) {
            RetryAction::RetryWithBackoff(kept) => assert_eq!(kept.code(), code),
            other => panic!("unexpected action {:?}", other),
        }
    }
}

#[test]
fn internal_retries_once() {
    match classify_status(Status::internal("broken")) {
        RetryAction::RetryOnce(kept) => {
            assert_eq!(kept.code(), Code::Internal);
            assert_eq!(kept.message(), "broken");
        }
        other => panic!("unexpected action {:?}", other),
    }
}

#[test]
fn every_other_code_fails() {
    let codes = [
        Code::Ok,
        Code::Unknown,
        Code::InvalidArgument,
        Code::DeadlineExceeded,
        Code::NotFound,
        Code::AlreadyExists,
        Code::PermissionDenied,
        Code::ResourceExhausted,
        Code::FailedPrecondition,
        Code::Aborted,
        Code::OutOfRange,
        Code::Unimplemented,
        Code::DataLoss,
        Code::Unauthenticated,
    ];
    for code in codes {
        match classify_status(Status::new(code, "no")) {
            RetryAction::Fail(kept) => {
                assert_eq!(kept.code(), code);
                assert_eq!(kept.message(), "no");
            }
            other => panic!("unexpected action {:?} for {:?}", other, code),
        }
    }
}

#[test]
fn classify_keeps_the_status_details() {
    let status = Status::with_details(Code::Aborted, "conflict", vec![1u8, 2, 3].into());
    match classify_status(status) {
        RetryAction::Fail(kept) => assert_eq!(kept.details(), &[1u8, 2, 3][..]),
        other => panic!("unexpected action {:?}", other),
    }
}

#[test]
fn backoff_doubles_with_each_attempt() {
    let limit = u128::MAX;
    assert_eq!(backoff_within(0, 0, limit), Some(100_000_000));
    assert_eq!(backoff_within(1, 0, limit), Some(200_000_000));
    assert_eq!(backoff_within(2, 0, limit), Some(400_000_000));
    assert_eq!(backoff_within(3, 37, limit), Some(837_000_000));
    assert_eq!(backoff_within(10, 99, limit), Some(102_499_000_000));
}

#[test]
fn backoff_at_the_limit_is_granted() {
    assert_eq!(backoff_within(0, 50, 150_000_000), Some(150_000_000));
    assert_eq!(backoff_within(0, 50, 149_999_999), None);
    assert_eq!(backoff_within(2, 0, 400_000_000), Some(400_000_000));
    assert_eq!(backoff_within(2, 1, 400_000_000), None);
}

#[test]
fn backoff_beyond_any_limit_is_refused() {
    assert_eq!(backoff_within(200, 0, u128::MAX), None);
    assert_eq!(backoff_within(usize::MAX, 0, u128::MAX), None);
    assert_eq!(backoff_within(101, 0, u128::MAX), Some(100_000_000u128 << 101));
    assert_eq!(backoff_within(102, 0, u128::MAX), None);
    assert_eq!(backoff_within(0, 0, 0), None);
}

#[test]
fn new_state_has_all_its_retries() {
    let state = state(Duration::from_secs(62), 7);
    assert_eq!(state.address(), "http://peer-1:6335/");
    assert_eq!(state.retries_left(), 7);
    assert_eq!(state.attempt(), 0);
    assert_eq!(state.max_timeout(), Duration::from_secs(62));
}

#[test]
fn fail_gives_up_at_once() {
    let state = state(Duration::from_secs(62), 2);
    match state.apply(RetryAction::Fail(Status::not_found("nothing")), 5) {
        RetryStep::GiveUp(error) => {
            let status = closure_status(error);
            assert_eq!(status.code(), Code::NotFound);
            assert_eq!(status.message(), "nothing");
        }
        RetryStep::Retry { .. } => panic!("a failure that ends the request was retried"),
    }
}

#[test]
fn retry_immediately_does_not_wait() {
    let state = state(Duration::from_secs(62), 2);
    match state.apply(RetryAction::RetryImmediately(Status::unavailable("down")), 99) {
        RetryStep::Retry { state, backoff } => {
            assert_eq!(backoff, Duration::ZERO);
            assert_eq!(state.retries_left(), 1);
            assert_eq!(state.attempt(), 1);
            assert_eq!(state.max_timeout(), Duration::from_secs(62));
            assert_eq!(state.address(), "http://peer-1:6335/");
        }
        RetryStep::GiveUp(error) => panic!("gave up with {:?}", error),
    }
}

#[test]
fn retry_with_backoff_waits_longer_each_time() {
    let mut current = state(Duration::from_secs(62), 3);
    let expected = [
        Duration::from_millis(100 + 11),
        Duration::from_millis(200 + 11),
        Duration::from_millis(400 + 11),
    ];
    for (attempt, wait) in expected.iter().enumerate() {
        match current.apply(RetryAction::RetryWithBackoff(Status::unavailable("busy")), 11) {
            RetryStep::Retry { state, backoff } => {
                assert_eq!(backoff, *wait);
                assert_eq!(state.attempt(), attempt + 1);
                assert_eq!(state.retries_left(), 2 - attempt);
                current = state;
            }
            RetryStep::GiveUp(error) => panic!("gave up with {:?}", error),
        }
    }
    match current.apply(RetryAction::RetryWithBackoff(Status::unavailable("last")), 11) {
        RetryStep::GiveUp(error) => assert_eq!(closure_status(error).message(), "last"),
        RetryStep::Retry { .. } => panic!("a fourth retry was granted out of three"),
    }
}

#[test]
fn backoff_longer_than_the_timeout_gives_up() {
    let state = state(Duration::from_millis(150), 5);
    match state.apply(RetryAction::RetryWithBackoff(Status::cancelled("slow")), 51) {
        RetryStep::GiveUp(error) => {
            let status = closure_status(error);
            assert_eq!(status.code(), Code::Cancelled);
            assert_eq!(status.message(), "slow");
        }
        RetryStep::Retry { .. } => panic!("waited longer than an attempt may take"),
    }
}

#[test]
fn backoff_equal_to_the_timeout_is_granted() {
    let state = state(Duration::from_millis(150), 5);
    match state.apply(RetryAction::RetryWithBackoff(Status::cancelled("slow")), 50) {
        RetryStep::Retry { backoff, .. } => assert_eq!(backoff, Duration::from_millis(150)),
        RetryStep::GiveUp(error) => panic!("gave up with {:?}", error),
    }
}

#[test]
fn sub_millisecond_timeout_is_compared_exactly() {
    let state = state(Duration::new(0, 100_000_001), 5);
    match state.apply(RetryAction::RetryWithBackoff(Status::cancelled("slow")), 0) {
        RetryStep::Retry { backoff, .. } => assert_eq!(backoff, Duration::from_millis(100)),
        RetryStep::GiveUp(error) => panic!("gave up with {:?}", error),
    }
    let state = RetryState::new(peer(), Duration::new(0, 99_999_999), 5);
    match state.apply(RetryAction::RetryWithBackoff(Status::cancelled("slow")), 0) {
        RetryStep::GiveUp(_) => {}
        RetryStep::Retry { .. } => panic!("waited longer than an attempt may take"),
    }
}

#[test]
fn no_retries_left_gives_up() {
    for action in [
        RetryAction::RetryImmediately(Status::unavailable("a")),
        RetryAction::RetryWithBackoff(Status::unavailable("a")),
        RetryAction::RetryOnce(Status::unavailable("a")),
    ] {
        match state(Duration::from_secs(62), 0).apply(action, 0) {
            RetryStep::GiveUp(error) => assert_eq!(closure_status(error).message(), "a"),
            RetryStep::Retry { .. } => panic!("a retry was granted out of none"),
        }
    }
}

#[test]
fn retry_once_uses_up_all_retries() {
    let state = state(Duration::from_secs(62), 5);
    match state.apply(RetryAction::RetryOnce(Status::internal("first")), 0) {
        RetryStep::Retry { state, backoff } => {
            assert_eq!(backoff, Duration::ZERO);
            assert_eq!(state.retries_left(), 0);
            assert_eq!(state.attempt(), 1);
            match state.apply(RetryAction::RetryOnce(Status::internal("second")), 0) {
                RetryStep::GiveUp(error) => {
                    let status = closure_status(error);
                    assert_eq!(status.code(), Code::Internal);
                    assert_eq!(status.message(), "second");
                }
                RetryStep::Retry { .. } => panic!("an internal error was retried twice"),
            }
        }
        RetryStep::GiveUp(error) => panic!("gave up with {:?}", error),
    }
}

#[test]
fn retry_once_with_one_retry_left() {
    let state = state(Duration::from_secs(62), 1);
    match state.apply(RetryAction::RetryOnce(Status::internal("first")), 0) {
        RetryStep::Retry { state, .. } => assert_eq!(state.retries_left(), 0),
        RetryStep::GiveUp(error) => panic!("gave up with {:?}", error),
    }
}

#[test]
fn attempts_never_exceed_retries_plus_one() {
    for retries in 0..6usize {
        let mut current = state(Duration::from_secs(3600), retries);
        let mut attempts = 1;
        loop {
            let failure = RequestFailure::RequestError(Status::unavailable("busy"));
            match current.next(failure) {
                RetryStep::Retry { state, .. } => {
                    attempts += 1;
                    current = state;
                }
                RetryStep::GiveUp(_) => break,
            }
        }
        assert_eq!(attempts, retries + 1);
    }
}

#[test]
fn drawn_jitter_stays_below_its_bound() {
    for _ in 0..500 {
        let failure = RequestFailure::RequestError(Status::unavailable("busy"));
        match state(Duration::from_secs(62), 2).next(failure) {
            RetryStep::Retry { backoff, .. } => {
                assert!(backoff >= Duration::from_millis(100));
                assert!(backoff < Duration::from_millis(200));
                assert_eq!(backoff.subsec_nanos() % 1_000_000, 0);
            }
            RetryStep::GiveUp(error) => panic!("gave up with {:?}", error),
        }
    }
}

#[test]
fn next_does_not_wait_after_an_internal_error() {
    let failure = RequestFailure::RequestError(Status::internal("broken"));
    match state(Duration::from_secs(62), 5).next(failure) {
        RetryStep::Retry { state, backoff } => {
            assert_eq!(backoff, Duration::ZERO);
            assert_eq!(state.retries_left(), 0);
        }
        RetryStep::GiveUp(error) => panic!("gave up with {:?}", error),
    }
}

#[test]
fn next_fails_on_a_dropped_pool() {
    let failure = RequestFailure::HealthCheck(HealthCheckError::NoChannel);
    match state(Duration::from_secs(62), 5).next(failure) {
        RetryStep::GiveUp(error) => {
            let status = closure_status(error);
            assert_eq!(status.code(), Code::Unavailable);
            assert_eq!(status.message(), "Peer http://peer-1:6335/ is not available");
        }
        RetryStep::Retry { .. } => panic!("a dropped pool was retried"),
    }
}

#[test]
fn total_wait_stays_within_the_budget() {
    let max_timeout = Duration::from_millis(1000);
    let retries = 10usize;
    let mut current = state(max_timeout, retries);
    let mut waited = Duration::ZERO;
    loop {
        let failure = RequestFailure::RequestError(Status::unavailable("busy"));
        match current.next(failure) {
            RetryStep::Retry { state, backoff } => {
                assert!(backoff <= max_timeout);
                waited += backoff;
                current = state;
            }
            RetryStep::GiveUp(_) => break,
        }
    }
    assert!(waited <= max_timeout * retries as u32);
    // 100, 200, 400 and 800 ms fit into one second; 1600 ms does not.
    assert_eq!(current_attempts(waited), 4);
}

fn current_attempts(waited: Duration) -> usize {
    let mut base = Duration::ZERO;
    let mut step = Duration::from_millis(100);
    let mut count = 0;
    while base + step <= waited {
        base += step;
        step *= 2;
        count += 1;
    }
    count
}

#[test]
fn transport_error_converts_into_a_request_error() {
    let converted: RequestError<Status> = RequestError::from(transport_error());
    match converted {
        RequestError::Tonic(error) => assert_eq!(error.to_string(), "invalid URI"),
        RequestError::FromClosure(status) => panic!("unexpected status {:?}", status),
    }
}

#[test]
fn request_error_says_where_it_came_from() {
    let status = Status::internal("broken");
    let expected = format!("Error in closure supplied to transport channel pool: {}", status);
    assert_eq!(RequestError::FromClosure(status).message(), expected);
    assert!(expected.contains("Internal"));
    assert!(expected.contains("broken"));
    let error: RequestError<Status> = RequestError::Tonic(transport_error());
    assert_eq!(error.message(), "Tonic error: invalid URI");
}

#[test]
fn state_keeps_the_timeout_to_the_nanosecond() {
    for timeout in [Duration::ZERO, Duration::new(3, 7), Duration::from_millis(1500), Duration::MAX] {
        assert_eq!(state(timeout, 1).max_timeout(), timeout);
    }
}
