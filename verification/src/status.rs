//! What the pool knows of the transport's own values: the status of a finished
//! call, the error of a failed connect, and the address of a peer.
//!
//! These are `tonic` types and stay opaque here. The library reads a status
//! only through its code, and builds one only from a code and a message.

use tonic::transport::Error as TonicError;
use tonic::transport::Uri;
use tonic::Code;
use tonic::Status;
use vstd::prelude::*;

verus! {

/// The coarse outcome classes that an RPC status can carry.
#[derive(Clone, Copy, Debug, PartialEq, Eq, Structural)]
pub enum StatusCode {
    Success,
    Cancelled,
    Unknown,
    InvalidArgument,
    DeadlineExceeded,
    NotFound,
    AlreadyExists,
    PermissionDenied,
    ResourceExhausted,
    FailedPrecondition,
    Aborted,
    OutOfRange,
    Unimplemented,
    Internal,
    Unavailable,
    DataLoss,
    Unauthenticated,
}

/// The status of a finished call. Only the trusted functions below see
/// inside one.
#[verifier::external_type_specification]
#[verifier::external_body]
pub struct ExStatus(tonic::Status);

/// The error of a failed connect, carried through as it is.
#[verifier::external_type_specification]
#[verifier::external_body]
pub struct ExTransportError(tonic::transport::Error);

/// The address of a peer, read only through the text it displays as.
#[verifier::external_type_specification]
#[verifier::external_body]
pub struct ExUri(tonic::transport::Uri);

/// The code of a status, as `tonic::Status::code` reports it.
pub uninterp spec fn status_code(status: Status) -> StatusCode;

/// The message of a status, as `tonic::Status::message` reports it.
pub uninterp spec fn status_message(status: Status) -> Seq<char>;

/// The status that `tonic::Status::unavailable` makes of a message.
pub uninterp spec fn unavailable_status(message: Seq<char>) -> Status;

/// The status that `tonic::Status::deadline_exceeded` makes of a message.
pub uninterp spec fn deadline_exceeded_status(message: Seq<char>) -> Status;

/// The text that a status displays as.
pub uninterp spec fn status_text(status: Status) -> Seq<char>;

/// The text that a transport error displays as.
pub uninterp spec fn transport_error_text(error: TonicError) -> Seq<char>;

/// The text that an address displays as: scheme, authority, path and query.
pub uninterp spec fn uri_text(uri: Uri) -> Seq<char>;

/// Whether a status has the given code and message.
pub open spec fn says(status: Status, code: StatusCode, message: Seq<char>) -> bool {
    status_code(status) == code && status_message(status) == message
}

/// Calls `tonic::Status::code` and gives the variant it returns under this
/// library's name for it.
#[verifier::external_body]
pub(crate) fn code_of(status: &Status) -> (code: StatusCode)
    ensures
        code == status_code(*status),
{
    match status.code() {
        Code::Ok => StatusCode::Success, Code::Cancelled => StatusCode::Cancelled,
        Code::Unknown => StatusCode::Unknown,
        Code::InvalidArgument => StatusCode::InvalidArgument,
        Code::DeadlineExceeded => StatusCode::DeadlineExceeded,
        Code::NotFound => StatusCode::NotFound,
        Code::AlreadyExists => StatusCode::AlreadyExists,
        Code::PermissionDenied => StatusCode::PermissionDenied,
        Code::ResourceExhausted => StatusCode::ResourceExhausted,
        Code::FailedPrecondition => StatusCode::FailedPrecondition,
        Code::Aborted => StatusCode::Aborted, Code::OutOfRange => StatusCode::OutOfRange,
        Code::Unimplemented => StatusCode::Unimplemented, Code::DataLoss => StatusCode::DataLoss,
        Code::Internal => StatusCode::Internal, Code::Unavailable => StatusCode::Unavailable,
        Code::Unauthenticated => StatusCode::Unauthenticated,
    }
}

/// Calls `tonic::Status::unavailable`, which makes a status of that code with
/// the message it is given, and with nothing else in it.
#[verifier::external_body]
pub(crate) fn unavailable(message: String) -> (status: Status)
    ensures
        status == unavailable_status(message@),
        status_code(status) == StatusCode::Unavailable,
        status_message(status) == message@,
{
    Status::unavailable(message)
}

/// Calls `tonic::Status::deadline_exceeded`, which makes a status of that code
/// with the message it is given, and with nothing else in it.
#[verifier::external_body]
pub(crate) fn deadline_exceeded(message: String) -> (status: Status)
    ensures
        status == deadline_exceeded_status(message@),
        status_code(status) == StatusCode::DeadlineExceeded,
        status_message(status) == message@,
{
    Status::deadline_exceeded(message)
}

/// Formats a status through its `Display` impl.
#[verifier::external_body]
pub(crate) fn display_status(status: &Status) -> (text: String)
    ensures
        text@ == status_text(*status),
{
    format!("{}", status)
}

/// Formats a transport error through its `Display` impl.
#[verifier::external_body]
pub(crate) fn display_transport_error(error: &TonicError) -> (text: String)
    ensures
        text@ == transport_error_text(*error),
{
    format!("{}", error)
}

/// Formats an address through its `Display` impl.
#[verifier::external_body]
pub(crate) fn display_uri(uri: &Uri) -> (text: String)
    ensures
        text@ == uri_text(*uri),
{
    format!("{}", uri)
}

} // verus!
