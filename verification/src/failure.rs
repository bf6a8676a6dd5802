//! How a request can fail, and what the pool does about each way.

use crate::status::display_status;
use crate::status::display_transport_error;
use crate::status::status_text;
use crate::status::transport_error_text;
use tonic::transport::Error as TonicError;
use tonic::Status;
use vstd::prelude::*;

verus! {

/// The error a caller of the pool gets back.
#[derive(Debug)]
pub enum RequestError<E> {
    /// The status the request ended with: the caller's own, or one the pool made up.
    FromClosure(E),
    /// A transport error that no retry was spent on.
    Tonic(TonicError),
}

/// Why the health probe gave a peer up.
#[derive(Debug)]
pub enum HealthCheckError {
    /// The peer's pool was dropped while the request was under way.
    NoChannel,
    /// No channel to probe on could be established.
    ConnectionError(TonicError),
    /// The health check was answered with an error, or not in time.
    RequestError(Status),
}

/// Why one attempt of a request failed.
#[derive(Debug)]
pub enum RequestFailure {
    /// The probe that watched the attempt gave the peer up.
    HealthCheck(HealthCheckError),
    /// The call ended with an error status, or the attempt ran out of time.
    RequestError(Status),
    /// No channel could be obtained for the call.
    RequestConnection(TonicError),
}

/// What to do after a failed attempt. Each variant holds the status that the
/// caller gets if no further attempt is made.
#[derive(Debug)]
pub enum RetryAction {
    /// The request ends.
    Fail(Status),
    /// The attempt is repeated at once, and then no more.
    RetryOnce(Status),
    /// The attempt is repeated after a wait that grows with each attempt.
    RetryWithBackoff(Status),
    /// The attempt is repeated at once.
    RetryImmediately(Status),
}

impl RetryAction {
    /// The status that the caller gets if this was the last attempt.
    pub open spec fn fallback(self) -> Status {
        match self {
            RetryAction::Fail(status) => status,
            RetryAction::RetryOnce(status) => status,
            RetryAction::RetryWithBackoff(status) => status,
            RetryAction::RetryImmediately(status) => status,
        }
    }
}

impl RequestError<Status> {
    /// What the error says of itself.
    pub open spec fn text(self) -> Seq<char> {
        match self {
            RequestError::FromClosure(status) => {
                "Error in closure supplied to transport channel pool: "@ + status_text(status)
            },
            RequestError::Tonic(error) => "Tonic error: "@ + transport_error_text(error),
        }
    }

    /// Writes what the error says of itself.
    pub fn message(&self) -> (message: String)
        ensures
            message@ == self.text(),
    {
        match self {
            RequestError::FromClosure(status) => {
                let mut message = String::from_str(
                    "Error in closure supplied to transport channel pool: ",
                );
                message.append(display_status(status).as_str());
                message
            },
            RequestError::Tonic(error) => {
                let mut message = String::from_str("Tonic error: ");
                message.append(display_transport_error(error).as_str());
                message
            },
        }
    }
}

impl<E> From<TonicError> for RequestError<E> {
    fn from(error: TonicError) -> (converted: Self) {
        RequestError::Tonic(error)
    }
}

impl<E> vstd::std_specs::convert::FromSpecImpl<TonicError> for RequestError<E> {
    open spec fn obeys_from_spec() -> bool {
        true
    }

    open spec fn from_spec(error: TonicError) -> Self {
        RequestError::Tonic(error)
    }
}

} // verus!
