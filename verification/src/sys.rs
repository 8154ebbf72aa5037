//! Host-platform plumbing for an enclave target: the error kinds the
//! platform reports, the mapping from its wire error codes to them, and the
//! stock results for operations the platform cannot provide.

use vstd::prelude::*;

verus! {

/// The kinds of failure the platform reports to its callers.
#[derive(Clone, Copy, PartialEq, Eq, Structural, Debug)]
pub enum ErrorKind {
    NotFound,
    PermissionDenied,
    ConnectionRefused,
    ConnectionReset,
    ConnectionAborted,
    NotConnected,
    AddrInUse,
    AddrNotAvailable,
    BrokenPipe,
    AlreadyExists,
    WouldBlock,
    InvalidInput,
    InvalidData,
    TimedOut,
    WriteZero,
    Interrupted,
    Other,
    UnexpectedEof,
    Unsupported,
}

/// A platform error: its kind.
#[derive(Clone, Copy, PartialEq, Eq, Structural, Debug)]
pub struct SysError {
    pub kind: ErrorKind,
}

impl SysError {
    /// A short description of the error, fixed by its kind.
    pub fn message(&self) -> (r: &'static str)
        ensures
            self.kind == ErrorKind::Unsupported ==> r@ == "operation not supported on SGX yet"@,
            self.kind == ErrorKind::Other ==> r@
                == "operation can't be trusted to have any effect on SGX"@,
            self.kind != ErrorKind::Unsupported && self.kind != ErrorKind::Other ==> r@
                == "SGX platform error"@,
    {
        match self.kind {
            ErrorKind::Unsupported => "operation not supported on SGX yet",
            ErrorKind::Other => "operation can't be trusted to have any effect on SGX",
            _ => "SGX platform error",
        }
    }
}

/// The error for functionality that simply does not exist on this platform.
pub fn unsupported_err() -> (r: SysError)
    ensures
        r.kind == ErrorKind::Unsupported,
{
    SysError { kind: ErrorKind::Unsupported }
}

/// The stock result for functionality that simply does not exist on this
/// platform: always the unsupported error.
pub fn unsupported<T>() -> (r: Result<T, SysError>)
    ensures
        r matches Err(e) && e.kind == ErrorKind::Unsupported,
{
    Err(unsupported_err())
}

/// Whether operations that cannot take effect inside the enclave are to be
/// reported as errors rather than silently succeed.  This build leaves the
/// toggle off.
pub const SGX_INEFFECTIVE_ERROR: bool = false;

/// The result for an operation that has no effect on this platform, but
/// whose absence need not be an error: the value passes through unchanged
/// unless the ineffective-operation toggle asks for an error.
pub fn sgx_ineffective<T>(v: T) -> (r: Result<T, SysError>)
    ensures
        !SGX_INEFFECTIVE_ERROR ==> (r matches Ok(x) && x == v),
        SGX_INEFFECTIVE_ERROR ==> (r matches Err(e) && e.kind == ErrorKind::Other),
{
    if SGX_INEFFECTIVE_ERROR {
        Err(SysError { kind: ErrorKind::Other })
    } else {
        Ok(v)
    }
}

/// The platform's numeric error code for each kind it distinguishes; every
/// code outside the table (the user-defined range included) reads as
/// `Other`.
pub open spec fn decode_error_kind_spec(code: int) -> ErrorKind {
    if code == 0x02 {
        ErrorKind::NotFound
    } else if code == 0x01 {
        ErrorKind::PermissionDenied
    } else if code == 0x6f {
        ErrorKind::ConnectionRefused
    } else if code == 0x68 {
        ErrorKind::ConnectionReset
    } else if code == 0x67 {
        ErrorKind::ConnectionAborted
    } else if code == 0x6b {
        ErrorKind::NotConnected
    } else if code == 0x62 {
        ErrorKind::AddrInUse
    } else if code == 0x63 {
        ErrorKind::AddrNotAvailable
    } else if code == 0x20 {
        ErrorKind::BrokenPipe
    } else if code == 0x11 {
        ErrorKind::AlreadyExists
    } else if code == 0x0b {
        ErrorKind::WouldBlock
    } else if code == 0x16 {
        ErrorKind::InvalidInput
    } else if code == 0x2000_0000 {
        ErrorKind::InvalidData
    } else if code == 0x6e {
        ErrorKind::TimedOut
    } else if code == 0x2000_0001 {
        ErrorKind::WriteZero
    } else if code == 0x04 {
        ErrorKind::Interrupted
    } else if code == 0x3fff_ffff {
        ErrorKind::Other
    } else if code == 0x2000_0002 {
        ErrorKind::UnexpectedEof
    } else {
        ErrorKind::Other
    }
}

/// Map a numeric error code from the platform's call interface to its
/// error kind.
pub fn decode_error_kind(code: i32) -> (r: ErrorKind)
    ensures
        r == decode_error_kind_spec(code as int),
{
    if code == 0x02 {
        ErrorKind::NotFound
    } else if code == 0x01 {
        ErrorKind::PermissionDenied
    } else if code == 0x6f {
        ErrorKind::ConnectionRefused
    } else if code == 0x68 {
        ErrorKind::ConnectionReset
    } else if code == 0x67 {
        ErrorKind::ConnectionAborted
    } else if code == 0x6b {
        ErrorKind::NotConnected
    } else if code == 0x62 {
        ErrorKind::AddrInUse
    } else if code == 0x63 {
        ErrorKind::AddrNotAvailable
    } else if code == 0x20 {
        ErrorKind::BrokenPipe
    } else if code == 0x11 {
        ErrorKind::AlreadyExists
    } else if code == 0x0b {
        ErrorKind::WouldBlock
    } else if code == 0x16 {
        ErrorKind::InvalidInput
    } else if code == 0x2000_0000 {
        ErrorKind::InvalidData
    } else if code == 0x6e {
        ErrorKind::TimedOut
    } else if code == 0x2000_0001 {
        ErrorKind::WriteZero
    } else if code == 0x04 {
        ErrorKind::Interrupted
    } else if code == 0x3fff_ffff {
        ErrorKind::Other
    } else if code == 0x2000_0002 {
        ErrorKind::UnexpectedEof
    } else {
        ErrorKind::Other
    }
}

/// The length of a NUL-terminated string held in a byte buffer: the index
/// of the first zero byte, or the whole length when none occurs.
pub fn strlen(s: &Vec<u8>) -> (n: usize)
    ensures
        n <= s@.len(),
        forall|j: int| 0 <= j < n ==> s@[j] != 0,
        n < s@.len() ==> s@[n as int] == 0,
        n == s@.len() ==> (forall|j: int| 0 <= j < s@.len() ==> s@[j] != 0),
{
    let mut n: usize = 0;
    let len = s.len();
    while n < len
        invariant
            n <= len,
            len == s@.len(),
            forall|j: int| 0 <= j < n ==> s@[j] != 0,
        decreases len - n,
    {
        if s[n] == 0 {
            return n;
        }
        n += 1;
    }
    n
}

/// Fallible unwrapping into an inner value, handing the wrapper back when
/// it cannot be unwrapped.
pub trait TryIntoInner<Inner>: Sized {
    fn try_into_inner(self) -> Result<Inner, Self>;
}

} // verus!
