//! The Unix signals that can end a run.

use vstd::prelude::*;

verus! {

/// Supported Unix signals.
#[allow(non_camel_case_types)]
#[derive(Clone, Copy, Debug, PartialEq, Eq, Structural)]
pub enum UnixSignal {
    SIGHUP,
    SIGINT,
    SIGTERM,
}

/// `libc::SIGHUP`, which the C library's bindings give as 1 on every target
/// that has the signal.
#[verifier::external_body]
fn libc_sighup() -> (number: i32)
    ensures
        number == 1,
{
    libc::SIGHUP
}

/// `libc::SIGINT`, which the C library's bindings give as 2 on every target.
#[verifier::external_body]
fn libc_sigint() -> (number: i32)
    ensures
        number == 2,
{
    libc::SIGINT
}

/// `libc::SIGTERM`, which the C library's bindings give as 15 on every target.
#[verifier::external_body]
fn libc_sigterm() -> (number: i32)
    ensures
        number == 15,
{
    libc::SIGTERM
}

impl UnixSignal {
    /// The number under which the operating system knows the signal.
    pub open spec fn number(self) -> int {
        match self {
            UnixSignal::SIGHUP => 1,
            UnixSignal::SIGINT => 2,
            UnixSignal::SIGTERM => 15,
        }
    }

    /// The number under which the operating system knows the signal.
    pub fn raw(self) -> (number: i32)
        ensures
            number == self.number(),
    {
        match self {
            UnixSignal::SIGHUP => libc_sighup(),
            UnixSignal::SIGINT => libc_sigint(),
            UnixSignal::SIGTERM => libc_sigterm(),
        }
    }
}

} // verus!
