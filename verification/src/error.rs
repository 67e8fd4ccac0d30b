//! The typed failures of a call, and the integer code each one stands for.

use vstd::prelude::*;

verus! {

/// An exit status or an error number, as the host counts them.
pub type ExitCode = i32;

/// A process identifier.
pub type Pid = i32;

/// Why a call did not produce its value.
#[derive(Clone, Copy, Debug, PartialEq, Eq, Structural)]
pub enum Error {
    /// The input was refused before anything was sent.
    InvalidArgument,
    /// The host refused or failed the operation; its code is carried as it came.
    HostError(ExitCode),
    /// The reply ended before its fixed part was complete.
    TruncatedResponse,
    /// The reply does not have the shape the call expects.
    MalformedResponse,
    /// The host does not know the command.
    UnsupportedOperation,
    /// The working directory did not fit the largest buffer tried.
    NameTooLong,
    /// The subsystem the call belongs to is switched off.
    Unsupported,
}

/// `wasi::ERRNO_INVAL`, read with `Errno::raw`: the number 28.
#[verifier::external_body]
fn errno_inval() -> (code: ExitCode)
    ensures
        code == 28,
{
    wasi::ERRNO_INVAL.raw().into()
}

/// `wasi::ERRNO_NAMETOOLONG`, read with `Errno::raw`: the number 37.
#[verifier::external_body]
fn errno_nametoolong() -> (code: ExitCode)
    ensures
        code == 37,
{
    wasi::ERRNO_NAMETOOLONG.raw().into()
}

/// `wasi::ERRNO_NOBUFS`, read with `Errno::raw`: the number 42.
#[verifier::external_body]
fn errno_nobufs() -> (code: ExitCode)
    ensures
        code == 42,
{
    wasi::ERRNO_NOBUFS.raw().into()
}

/// `wasi::ERRNO_NOSYS`, read with `Errno::raw`: the number 52.
#[verifier::external_body]
fn errno_nosys() -> (code: ExitCode)
    ensures
        code == 52,
{
    wasi::ERRNO_NOSYS.raw().into()
}

/// `wasi::ERRNO_NOTSUP`, read with `Errno::raw`: the number 58.
#[verifier::external_body]
fn errno_notsup() -> (code: ExitCode)
    ensures
        code == 58,
{
    wasi::ERRNO_NOTSUP.raw().into()
}

/// `wasi::ERRNO_PROTO`, read with `Errno::raw`: the number 65.
#[verifier::external_body]
fn errno_proto() -> (code: ExitCode)
    ensures
        code == 65,
{
    wasi::ERRNO_PROTO.raw().into()
}

/// `wasi::ERRNO_BADF`, read with `Errno::raw`: the number 8.
#[verifier::external_body]
pub(crate) fn errno_badf() -> (code: ExitCode)
    ensures
        code == 8,
{
    wasi::ERRNO_BADF.raw().into()
}

/// `wasi::ERRNO_MFILE`, read with `Errno::raw`: the number 33.
#[verifier::external_body]
pub(crate) fn errno_mfile() -> (code: ExitCode)
    ensures
        code == 33,
{
    wasi::ERRNO_MFILE.raw().into()
}

/// `wasi::ERRNO_BADMSG`, read with `Errno::raw`: the number 9.
#[verifier::external_body]
fn errno_badmsg() -> (code: ExitCode)
    ensures
        code == 9,
{
    wasi::ERRNO_BADMSG.raw().into()
}

/// The code by which the host signals that a buffer was too small.
pub open spec fn no_buffer_space() -> ExitCode {
    42
}

/// The code by which the host signals that a buffer was too small.
pub fn buffer_too_small() -> (code: ExitCode)
    ensures
        code == no_buffer_space(),
{
    errno_nobufs()
}

impl Error {
    /// The integer each failure stands for: a host code as it came, and an
    /// error number of the system interface for the others.
    pub open spec fn spec_code(self) -> ExitCode {
        match self {
            Error::InvalidArgument => 28,
            Error::HostError(code) => code,
            Error::TruncatedResponse => 65,
            Error::MalformedResponse => 9,
            Error::UnsupportedOperation => 52,
            Error::NameTooLong => 37,
            Error::Unsupported => 58,
        }
    }

    /// The integer this failure stands for.
    pub fn code(&self) -> (code: ExitCode)
        ensures
            code == self.spec_code(),
    {
        match self {
            Error::InvalidArgument => errno_inval(),
            Error::HostError(code) => *code,
            Error::TruncatedResponse => errno_proto(),
            Error::MalformedResponse => errno_badmsg(),
            Error::UnsupportedOperation => errno_nosys(),
            Error::NameTooLong => errno_nametoolong(),
            Error::Unsupported => errno_notsup(),
        }
    }
}

} // verus!
