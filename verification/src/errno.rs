//! Error numbers of the operating system, as far as the daemon tells them apart.

use vstd::prelude::*;

verus! {

/// The errors that lead to different decisions.
#[derive(Clone, Copy, Debug, PartialEq, Eq, Structural)]
pub enum ErrorKind {
    /// `ENOENT`: no such file.
    NoEntry,
    /// `EINTR`: a signal came first.
    Interrupted,
    /// `EIO`: an input/output error.
    Io,
    /// `EAGAIN`: the operation would block.
    WouldBlock,
    /// `EACCES`: permission denied.
    Access,
    /// `ENODEV`: no such device.
    NoDevice,
    /// Any other number.
    Other,
}

/// The kind of the error number `raw` on Linux.
pub open spec fn kind_of(raw: i32) -> ErrorKind {
    if raw == 2 {
        ErrorKind::NoEntry
    } else if raw == 4 {
        ErrorKind::Interrupted
    } else if raw == 5 {
        ErrorKind::Io
    } else if raw == 11 {
        ErrorKind::WouldBlock
    } else if raw == 13 {
        ErrorKind::Access
    } else if raw == 19 {
        ErrorKind::NoDevice
    } else {
        ErrorKind::Other
    }
}

/// Tells the variants of `nix::errno::Errno::from_raw` apart.
///
/// Trusted: `from_raw` maps the values that libc gives to the six named errors
/// on Linux (2, 4, 5, 11, 13 and 19) to those variants, and every other number
/// to some other variant.
#[verifier::external_body]
pub(crate) fn classify(raw: i32) -> (r: ErrorKind)
    ensures
        r == kind_of(raw),
{
    match nix::errno::Errno::from_raw(raw) {
        nix::errno::Errno::ENOENT => ErrorKind::NoEntry,
        nix::errno::Errno::EINTR => ErrorKind::Interrupted,
        nix::errno::Errno::EIO => ErrorKind::Io,
        nix::errno::Errno::EAGAIN => ErrorKind::WouldBlock,
        nix::errno::Errno::EACCES => ErrorKind::Access,
        nix::errno::Errno::ENODEV => ErrorKind::NoDevice,
        _ => ErrorKind::Other,
    }
}

} // verus!
