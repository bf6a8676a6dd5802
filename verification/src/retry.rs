//! The retry policy: which failures are worth another attempt, how long to
//! wait before it, and when to stop.
//!
//! Nothing here performs a request or sleeps. A request is a run of attempts;
//! after each failed one its [`RetryState`] is asked what comes next, and the
//! answer is either the error to hand to the caller or a wait before the next
//! attempt.

use crate::failure::HealthCheckError;
use crate::failure::RequestError;
use crate::failure::RequestFailure;
use crate::failure::RetryAction;
use crate::random::random_below;
use crate::status::code_of;
use crate::status::says;
use crate::status::display_transport_error;
use crate::status::status_code;
use crate::status::transport_error_text;
use crate::status::unavailable;
use crate::status::unavailable_status;
use crate::status::StatusCode;
use crate::text::connect_failed_message;
use crate::text::connect_failed_text;
use crate::text::peer_unavailable_message;
use crate::text::peer_unavailable_text;
use crate::time::duration_from_nanos;
use crate::time::duration_nanos;
use crate::time::nanos_of;
use crate::time::MAX_DURATION_NANOS;
use crate::time::NANOS_PER_MILLI;
use std::time::Duration;
use tonic::Status;
use vstd::arithmetic::power2::lemma2_to64;
use vstd::arithmetic::power2::lemma_pow2_strictly_increases;
use vstd::arithmetic::power2::lemma_pow2_unfold;
use vstd::arithmetic::power2::pow2;
use vstd::prelude::*;

verus! {

/// How many further attempts a request gets unless its caller says otherwise.
pub const DEFAULT_RETRIES: usize = 2;

/// The wait before the first retry, doubled for each attempt after it: 100 ms.
pub const DEFAULT_BACKOFF_NANOS: u128 = 100_000_000;

/// The random part of a wait is below this many milliseconds.
pub const MAX_JITTER_MILLIS: u64 = 100;

/// The action that a failed call's own status asks for.
pub open spec fn action_for_status(status: Status) -> RetryAction {
    let code = status_code(status);
    if code == StatusCode::Cancelled || code == StatusCode::Unavailable {
        RetryAction::RetryWithBackoff(status)
    } else if code == StatusCode::Internal {
        RetryAction::RetryOnce(status)
    } else {
        RetryAction::Fail(status)
    }
}

/// The answer to a failed attempt of a request to `address`.
///
/// A dropped pool ends the request. A failed connect is retried, at once where
/// the probe met it and after a wait where the request itself did. A failed
/// health check is retried after a wait. The call's own status decides for
/// itself, see [`action_for_status`].
pub open spec fn classification(failure: RequestFailure, address: Seq<char>) -> RetryAction {
    match failure {
        RequestFailure::HealthCheck(HealthCheckError::NoChannel) => RetryAction::Fail(
            unavailable_status(peer_unavailable_text(address)),
        ),
        RequestFailure::HealthCheck(HealthCheckError::ConnectionError(error)) => {
            RetryAction::RetryImmediately(
                unavailable_status(connect_failed_text(address, transport_error_text(error))),
            )
        },
        RequestFailure::HealthCheck(HealthCheckError::RequestError(status)) => {
            RetryAction::RetryWithBackoff(status)
        },
        RequestFailure::RequestError(status) => action_for_status(status),
        RequestFailure::RequestConnection(error) => RetryAction::RetryWithBackoff(
            unavailable_status(connect_failed_text(address, transport_error_text(error))),
        ),
    }
}

/// Whether the status that [`classification`] makes up for `failure`, if it
/// makes one up, has the code `Unavailable` and says what went wrong.
pub open spec fn is_worded(failure: RequestFailure, address: Seq<char>) -> bool {
    let status = classification(failure, address).fallback();
    match failure {
        RequestFailure::HealthCheck(HealthCheckError::NoChannel) => says(
            status,
            StatusCode::Unavailable,
            peer_unavailable_text(address),
        ),
        RequestFailure::HealthCheck(HealthCheckError::ConnectionError(error)) => says(
            status,
            StatusCode::Unavailable,
            connect_failed_text(address, transport_error_text(error)),
        ),
        RequestFailure::RequestConnection(error) => says(
            status,
            StatusCode::Unavailable,
            connect_failed_text(address, transport_error_text(error)),
        ),
        _ => true,
    }
}

/// Decides what a failed call's own status asks for.
pub fn classify_status(status: Status) -> (action: RetryAction)
    ensures
        action == action_for_status(status),
{
    match code_of(&status) {
        StatusCode::Cancelled | StatusCode::Unavailable => RetryAction::RetryWithBackoff(status),
        StatusCode::Internal => RetryAction::RetryOnce(status),
        _ => RetryAction::Fail(status),
    }
}

/// Decides what to do about a failed attempt of a request to `address`. A
/// status that the answer makes up has the code `Unavailable` and says what
/// went wrong.
pub fn classify(failure: RequestFailure, address: &String) -> (action: RetryAction)
    ensures
        action == classification(failure, address@),
        is_worded(failure, address@),
{
    match failure {
        RequestFailure::HealthCheck(HealthCheckError::NoChannel) => {
            RetryAction::Fail(unavailable(peer_unavailable_message(address)))
        },
        RequestFailure::HealthCheck(HealthCheckError::ConnectionError(error)) => {
            let reason = display_transport_error(&error);
            RetryAction::RetryImmediately(unavailable(connect_failed_message(address, &reason)))
        },
        RequestFailure::HealthCheck(HealthCheckError::RequestError(status)) => {
            RetryAction::RetryWithBackoff(status)
        },
        RequestFailure::RequestError(status) => classify_status(status),
        RequestFailure::RequestConnection(error) => {
            let reason = display_transport_error(&error);
            RetryAction::RetryWithBackoff(unavailable(connect_failed_message(address, &reason)))
        },
    }
}

/// The wait before the retry that follows failed attempt number `attempt`
/// (counted from 0), in nanoseconds: the default backoff doubled `attempt`
/// times, plus the jitter.
pub open spec fn backoff_nanos(attempt: nat, jitter_millis: nat) -> nat {
    DEFAULT_BACKOFF_NANOS as nat * pow2(attempt) + jitter_millis * NANOS_PER_MILLI as nat
}

proof fn pow2_is_monotonic(low: nat, high: nat)
    requires
        low <= high,
    ensures
        pow2(low) <= pow2(high),
{
    if low < high {
        lemma_pow2_strictly_increases(low, high);
    }
}

proof fn base_grows_with_attempt(low: nat, high: nat)
    requires
        low <= high,
    ensures
        DEFAULT_BACKOFF_NANOS as nat * pow2(low) <= DEFAULT_BACKOFF_NANOS as nat * pow2(high),
{
    pow2_is_monotonic(low, high);
    assert(DEFAULT_BACKOFF_NANOS as nat * pow2(low) <= DEFAULT_BACKOFF_NANOS as nat * pow2(high))
        by (nonlinear_arith)
        requires
            pow2(low) <= pow2(high),
    ;
}

/// Computes [`backoff_nanos`] as far as it stays within `max_timeout`.
///
/// Returns the wait where it does not exceed `max_timeout`, and `None` where
/// it does, however large it would be.
pub fn backoff_within(attempt: usize, jitter_millis: u64, max_timeout: u128) -> (backoff: Option<
    u128,
>)
    ensures
        match backoff {
            Some(wait) => wait == backoff_nanos(attempt as nat, jitter_millis as nat) && wait
                <= max_timeout,
            None => backoff_nanos(attempt as nat, jitter_millis as nat) > max_timeout,
        },
{
    let mut base: u128 = DEFAULT_BACKOFF_NANOS;
    let mut doubled: usize = 0;
    proof {
        lemma2_to64();
    }
    while doubled < attempt
        invariant
            doubled <= attempt,
            base == DEFAULT_BACKOFF_NANOS as nat * pow2(doubled as nat),
        decreases attempt - doubled,
    {
        proof {
            lemma_pow2_unfold((doubled + 1) as nat);
            base_grows_with_attempt((doubled + 1) as nat, attempt as nat);
            assert(DEFAULT_BACKOFF_NANOS as nat * pow2((doubled + 1) as nat) == 2 * (
            DEFAULT_BACKOFF_NANOS as nat * pow2(doubled as nat))) by (nonlinear_arith)
                requires
                    pow2((doubled + 1) as nat) == 2 * pow2(doubled as nat),
            ;
        }
        match base.checked_mul(2) {
            Some(twice) => {
                if twice > max_timeout {
                    return None;
                }
                base = twice;
            },
            None => {
                return None;
            },
        }
        doubled = doubled + 1;
    }
    let jitter: u128 = jitter_millis as u128 * NANOS_PER_MILLI;
    match base.checked_add(jitter) {
        Some(wait) => {
            if wait > max_timeout {
                None
            } else {
                Some(wait)
            }
        },
        None => None,
    }
}

/// What a [`RetryState`] stands for.
pub struct RetryStateView {
    /// The peer's address, as text.
    pub address: Seq<char>,
    /// How many further attempts may still be granted.
    pub retries_left: nat,
    /// How many attempts have failed so far.
    pub attempt: nat,
    /// The time budget of one attempt, and the cap on any wait, in nanoseconds.
    pub max_timeout: nat,
}

/// Whether the request ends after a failure that calls for `action`.
///
/// It ends where the action says so, where the wait would outlast an attempt's
/// whole time budget, and where no retry is left.
pub open spec fn gives_up(state: RetryStateView, action: RetryAction, jitter_millis: nat) -> bool {
    ||| action is Fail
    ||| (action is RetryWithBackoff && backoff_nanos(state.attempt, jitter_millis)
        > state.max_timeout)
    ||| state.retries_left == 0
}

/// The wait before the retry that `action` is granted.
pub open spec fn wait_nanos(state: RetryStateView, action: RetryAction, jitter_millis: nat) -> nat {
    if action is RetryWithBackoff {
        backoff_nanos(state.attempt, jitter_millis)
    } else {
        0
    }
}

/// The state of a request after a retry was granted for `action`. A failure
/// that may be retried only once uses up whatever retries were left.
pub open spec fn after_retry(state: RetryStateView, action: RetryAction) -> RetryStateView {
    RetryStateView {
        address: state.address,
        retries_left: if action is RetryOnce {
            0
        } else {
            (state.retries_left - 1) as nat
        },
        attempt: state.attempt + 1,
        max_timeout: state.max_timeout,
    }
}

/// The bookkeeping of one request across its attempts.
pub struct RetryState {
    address: String,
    retries_left: usize,
    attempt: usize,
    max_timeout: u128,
}

/// What follows a failed attempt.
pub enum RetryStep {
    /// No further attempt is made: the request ends with this error, which
    /// holds the status of the last failure.
    GiveUp(RequestError<Status>),
    /// Another attempt is made, after waiting for `backoff`.
    Retry { state: RetryState, backoff: Duration },
}

/// Whether `step` is what follows a failure that calls for `action`, in a
/// request in state `state`, with the given jitter.
pub open spec fn follows(
    state: RetryStateView,
    action: RetryAction,
    jitter_millis: nat,
    step: RetryStep,
) -> bool {
    if gives_up(state, action, jitter_millis) {
        step == RetryStep::GiveUp(RequestError::FromClosure(action.fallback()))
    } else {
        &&& step matches RetryStep::Retry { state: next, backoff }
        &&& next@ == after_retry(state, action)
        &&& duration_nanos(backoff) == wait_nanos(state, action, jitter_millis)
    }
}

impl View for RetryState {
    type V = RetryStateView;

    closed spec fn view(&self) -> RetryStateView {
        RetryStateView {
            address: self.address@,
            retries_left: self.retries_left as nat,
            attempt: self.attempt as nat,
            max_timeout: self.max_timeout as nat,
        }
    }
}

impl RetryState {
    #[verifier::type_invariant]
    spec fn well_formed(self) -> bool {
        &&& self.attempt + self.retries_left <= usize::MAX
        &&& self.max_timeout <= MAX_DURATION_NANOS
    }

    /// The state of a request to `address` before its first attempt: `retries`
    /// further attempts may follow it, and each attempt gets `max_timeout`.
    pub fn new(address: String, max_timeout: Duration, retries: usize) -> (state: RetryState)
        ensures
            state@ == (RetryStateView {
                address: address@,
                retries_left: retries as nat,
                attempt: 0,
                max_timeout: duration_nanos(max_timeout),
            }),
    {
        let max_timeout = nanos_of(max_timeout);
        RetryState { address, retries_left: retries, attempt: 0, max_timeout }
    }

    /// The peer's address, as text.
    pub fn address(&self) -> (address: &String)
        ensures
            address@ == self@.address,
    {
        &self.address
    }

    /// How many further attempts may still be granted.
    pub fn retries_left(&self) -> (left: usize)
        ensures
            left == self@.retries_left,
    {
        self.retries_left
    }

    /// How many attempts have failed so far.
    pub fn attempt(&self) -> (attempt: usize)
        ensures
            attempt == self@.attempt,
    {
        self.attempt
    }

    /// The time budget of one attempt.
    pub fn max_timeout(&self) -> (timeout: Duration)
        ensures
            duration_nanos(timeout) == self@.max_timeout,
    {
        proof {
            use_type_invariant(self);
        }
        duration_from_nanos(self.max_timeout)
    }

    /// Decides what follows a failure that calls for `action`, with
    /// `jitter_millis` as the random part of the wait.
    pub fn apply(self, action: RetryAction, jitter_millis: u64) -> (step: RetryStep)
        ensures
            follows(self@, action, jitter_millis as nat, step),
    {
        proof {
            use_type_invariant(&self);
        }
        let mut retries_left = self.retries_left;
        let (wait, fallback) = match action {
            RetryAction::Fail(status) => {
                return RetryStep::GiveUp(RequestError::FromClosure(status));
            },
            RetryAction::RetryImmediately(fallback) => (0u128, fallback),
            RetryAction::RetryWithBackoff(fallback) => {
                match backoff_within(self.attempt, jitter_millis, self.max_timeout) {
                    Some(wait) => (wait, fallback),
                    None => {
                        return RetryStep::GiveUp(RequestError::FromClosure(fallback));
                    },
                }
            },
            RetryAction::RetryOnce(fallback) => {
                if retries_left > 1 {
                    retries_left = 1;
                }
                (0u128, fallback)
            },
        };
        if retries_left == 0 {
            return RetryStep::GiveUp(RequestError::FromClosure(fallback));
        }
        let state = RetryState {
            address: self.address,
            retries_left: retries_left - 1,
            attempt: self.attempt + 1,
            max_timeout: self.max_timeout,
        };
        RetryStep::Retry { state, backoff: duration_from_nanos(wait) }
    }

    /// Decides what follows a failed attempt: classifies the failure, draws the
    /// jitter where a wait is called for, and applies the action.
    ///
    /// The jitter is random, so the step is one of those that [`RetryState::apply`]
    /// gives for a jitter below [`MAX_JITTER_MILLIS`].
    pub fn next(self, failure: RequestFailure) -> (step: RetryStep)
        ensures
            exists|jitter_millis: nat|
                {
                    &&& jitter_millis < MAX_JITTER_MILLIS
                    &&& #[trigger] follows(
                        self@,
                        classification(failure, self@.address),
                        jitter_millis,
                        step,
                    )
                },
            is_worded(failure, self@.address),
    {
        let action = classify(failure, &self.address);
        let jitter_millis: u64 = match action {
            RetryAction::RetryWithBackoff(_) => random_below(MAX_JITTER_MILLIS),
            _ => 0,
        };
        let ghost before = self@;
        let step = self.apply(action, jitter_millis);
        assert(follows(before, action, jitter_millis as nat, step));
        step
    }
}

/// How many retries a request in state `state` is granted while its attempts
/// fail in the ways that `failures` lists, each with its action and jitter.
pub open spec fn retries_granted(state: RetryStateView, failures: Seq<(RetryAction, nat)>) -> nat
    decreases failures.len(),
{
    if failures.len() == 0 || gives_up(state, failures[0].0, failures[0].1) {
        0
    } else {
        1 + retries_granted(after_retry(state, failures[0].0), failures.drop_first())
    }
}

/// The time a request in state `state` spends waiting between its attempts
/// while they fail in the ways that `failures` lists, in nanoseconds.
pub open spec fn total_wait_nanos(state: RetryStateView, failures: Seq<(RetryAction, nat)>) -> nat
    decreases failures.len(),
{
    if failures.len() == 0 || gives_up(state, failures[0].0, failures[0].1) {
        0
    } else {
        wait_nanos(state, failures[0].0, failures[0].1) + total_wait_nanos(
            after_retry(state, failures[0].0),
            failures.drop_first(),
        )
    }
}

/// A request is never granted more retries than it has left, whatever its
/// attempts fail with. A request that starts with `retries` retries therefore
/// makes at most `retries + 1` attempts.
pub proof fn attempts_are_bounded(state: RetryStateView, failures: Seq<(RetryAction, nat)>)
    ensures
        retries_granted(state, failures) <= state.retries_left,
    decreases failures.len(),
{
    if failures.len() != 0 && !gives_up(state, failures[0].0, failures[0].1) {
        attempts_are_bounded(after_retry(state, failures[0].0), failures.drop_first());
    }
}

/// After a retry granted for a failure that may be retried only once, no
/// further retry is granted: at most one attempt follows such a failure.
pub proof fn retry_once_is_last(
    state: RetryStateView,
    action: RetryAction,
    jitter_millis: nat,
    failures: Seq<(RetryAction, nat)>,
)
    requires
        action is RetryOnce,
        !gives_up(state, action, jitter_millis),
    ensures
        retries_granted(after_retry(state, action), failures) == 0,
{
    attempts_are_bounded(after_retry(state, action), failures);
}

/// No wait is longer than one attempt's time budget, so all the waiting of a
/// request stays within that budget times the retries it has left.
pub proof fn waiting_is_bounded(state: RetryStateView, failures: Seq<(RetryAction, nat)>)
    ensures
        total_wait_nanos(state, failures) <= state.retries_left * state.max_timeout,
    decreases failures.len(),
{
    if failures.len() != 0 && !gives_up(state, failures[0].0, failures[0].1) {
        let next = after_retry(state, failures[0].0);
        waiting_is_bounded(next, failures.drop_first());
        assert(wait_nanos(state, failures[0].0, failures[0].1) <= state.max_timeout);
        assert(next.retries_left * next.max_timeout + state.max_timeout <= state.retries_left
            * state.max_timeout) by (nonlinear_arith)
            requires
                next.retries_left + 1 <= state.retries_left,
                next.max_timeout == state.max_timeout,
        ;
    } else {
        assert(0 <= state.retries_left * state.max_timeout) by (nonlinear_arith);
    }
}

} // verus!
