//! Failure taxonomy of the capture pipeline.

use vstd::prelude::*;

verus! {

/// Everything that can go wrong while locating, capturing, repairing or
/// persisting a module image. Lookup and repair failures are local to one
/// module; session-state misuse (`NotAttached`, `AlreadyAttached`) is the
/// caller's fault; `IoError` and `PlatformError` wrap failures of the
/// operating system underneath.
#[derive(Clone, Copy, Debug, PartialEq, Eq, Structural)]
pub enum Error {
    /// Process or module lookup found no match.
    NotFound,
    /// A memory operation was attempted on a detached session.
    NotAttached,
    /// A second attach was attempted without an intervening detach.
    AlreadyAttached,
    /// A format signature or a bounds check failed during image repair.
    InvalidImage,
    /// A path or name could not be decoded as text.
    Utf8Error,
    /// A file-system or memory-access failure underneath.
    IoError,
    /// A wrapped operating-system failure.
    PlatformError,
}

impl Error {
    /// The short description of `self`, as reported to the operator.
    pub open spec fn spec_message(self) -> Seq<char> {
        match self {
            Error::NotFound => "not found"@,
            Error::NotAttached => "not attached"@,
            Error::AlreadyAttached => "already attached"@,
            Error::InvalidImage => "invalid image"@,
            Error::Utf8Error => "invalid utf-8"@,
            Error::IoError => "i/o error"@,
            Error::PlatformError => "platform error"@,
        }
    }

    /// A short description, for reporting a per-module failure.
    pub fn message(&self) -> (r: &'static str)
        ensures
            r@ == self.spec_message(),
    {
        match self {
            Error::NotFound => "not found",
            Error::NotAttached => "not attached",
            Error::AlreadyAttached => "already attached",
            Error::InvalidImage => "invalid image",
            Error::Utf8Error => "invalid utf-8",
            Error::IoError => "i/o error",
            Error::PlatformError => "platform error",
        }
    }
}

} // verus!
