//! What the library reads of the errors of `std::io`.
use vstd::prelude::*;

verus! {

/// The kind of an error of `std::io`, carried through as an opaque value.
#[verifier::external_type_specification]
#[verifier::external_body]
pub struct ExErrorKind(std::io::ErrorKind);

/// The kinds of `std::io::Error` that the library tells apart.
#[derive(Clone, Copy, Debug, PartialEq, Eq, Structural)]
pub enum ErrorKind {
    /// The operation would block.
    WouldBlock,
    /// A signal arrived.
    Interrupted,
    /// The connection was aborted.
    ConnectionAborted,
    /// The connection was reset.
    ConnectionReset,
    /// The connection timed out.
    TimedOut,
    /// The network is down.
    NetworkDown,
    /// The network is unreachable.
    NetworkUnreachable,
    /// The host is unreachable.
    HostUnreachable,
    /// No memory is available.
    OutOfMemory,
    /// A write accepted nothing.
    WriteZero,
    /// The kind of errors that programs make for themselves.
    Other,
    /// Any kind that is not listed here.
    Unlisted,
}

/// The platform's number in an error, if it came from the platform.
pub uninterp spec fn platform_code_of(error: std::io::Error) -> Option<i32>;

/// `std::io::Error::raw_os_error`: the platform's number that the error was made
/// from, and nothing for an error that was made otherwise. The number is part of the
/// error, so that every call gives the same.
#[verifier::external_body]
pub(crate) fn platform_code(error: &std::io::Error) -> (code: Option<i32>)
    ensures
        code == platform_code_of(*error),
{
    error.raw_os_error()
}

/// `std::io::Error::from_raw_os_error`: an error with that platform number.
pub assume_specification[ std::io::Error::from_raw_os_error ](code: i32) -> (error: std::io::Error)
    ensures
        platform_code_of(error) == Some(code),
;

/// Whether an error has no platform number, or one of those that mean the same on
/// every Linux machine.
pub open spec fn portable(error: std::io::Error) -> bool {
    platform_code_of(error) matches Some(code) ==> 0 < code <= 34
}

/// The kind of an error that has no platform number, or one that means the same on
/// every Linux machine.
pub uninterp spec fn kind_of(error: std::io::Error) -> std::io::ErrorKind;

/// `std::io::Error::kind`: the kind that the error was made with or, where it has a
/// platform number, the one that std infers from the number. Numbers above 34 differ
/// between machines, so nothing is claimed of the kind that std infers from those,
/// except that `Other` is never inferred: std leaves that kind to programs.
pub assume_specification[ std::io::Error::kind ](error: &std::io::Error) -> (kind:
    std::io::ErrorKind)
    ensures
        portable(*error) ==> kind == kind_of(*error),
        platform_code_of(*error) is Some ==> named_kind(kind) != ErrorKind::Other,
;

/// The name that the library has for a kind.
pub uninterp spec fn named_kind(kind: std::io::ErrorKind) -> ErrorKind;

/// The variants of `std::io::ErrorKind`, each under the name that the library has for
/// it.
#[verifier::external_body]
pub(crate) fn name_kind(kind: &std::io::ErrorKind) -> (name: ErrorKind)
    ensures
        name == named_kind(*kind),
{
    match kind {
        std::io::ErrorKind::WouldBlock => ErrorKind::WouldBlock,
        std::io::ErrorKind::Interrupted => ErrorKind::Interrupted,
        std::io::ErrorKind::ConnectionAborted => ErrorKind::ConnectionAborted,
        std::io::ErrorKind::ConnectionReset => ErrorKind::ConnectionReset,
        std::io::ErrorKind::TimedOut => ErrorKind::TimedOut,
        std::io::ErrorKind::NetworkDown => ErrorKind::NetworkDown,
        std::io::ErrorKind::NetworkUnreachable => ErrorKind::NetworkUnreachable,
        std::io::ErrorKind::HostUnreachable => ErrorKind::HostUnreachable,
        std::io::ErrorKind::OutOfMemory => ErrorKind::OutOfMemory,
        std::io::ErrorKind::WriteZero => ErrorKind::WriteZero,
        std::io::ErrorKind::Other => ErrorKind::Other,
        _ => ErrorKind::Unlisted,
    }
}

/// `==` of `std::io::ErrorKind`: whether two kinds are the same.
#[verifier::external_body]
pub(crate) fn same_kind(one: &std::io::ErrorKind, other: &std::io::ErrorKind) -> (same: bool)
    ensures
        same == (*one == *other),
{
    one == other
}

/// `From<ErrorKind>` of `std::io::Error`: an error of that kind, without a platform
/// number.
#[verifier::external_body]
pub(crate) fn error_of_kind(kind: std::io::ErrorKind) -> (error: std::io::Error)
    ensures
        platform_code_of(error) is None,
        kind_of(error) == kind,
{
    std::io::Error::from(kind)
}

/// Whether an error was made by a program, with this kind.
pub open spec fn made_with(error: std::io::Error, kind: ErrorKind) -> bool {
    platform_code_of(error) is None && named_kind(kind_of(error)) == kind
}

/// `std::io::Error::new` with the kind `WriteZero`. Nothing is claimed of the text.
#[verifier::external_body]
pub(crate) fn write_zero(message: &str) -> (error: std::io::Error)
    ensures
        made_with(error, ErrorKind::WriteZero),
{
    std::io::Error::new(std::io::ErrorKind::WriteZero, message)
}

/// `std::io::Error::other`, which gives the kind `Other`. Nothing is claimed of the
/// text.
#[verifier::external_body]
pub(crate) fn other_error(message: &str) -> (error: std::io::Error)
    ensures
        made_with(error, ErrorKind::Other),
{
    std::io::Error::other(message)
}

} // verus!
