//! What can go wrong, and how it is told.

use crate::topology::{CoreId, SocketId};
use vstd::prelude::*;

verus! {

/// A failure that concerns one port. Where a number is carried, it is the
/// port's position in the configuration.
#[derive(Clone, Debug, PartialEq, Eq)]
pub enum PortError {
    /// No port has this name, which was asked for.
    NotFound(String),
    /// The port repeats the name of an earlier port.
    DuplicateName(usize),
    /// The port is assigned a core that is not a worker of the runtime.
    CoreUnknown(usize, CoreId),
    /// The device could not be found or would not describe itself.
    DeviceUnavailable(usize),
    /// A descriptor count lies outside the range that the device advertises.
    InvalidDescriptorCount(usize),
    /// The device refused its configuration.
    ConfigureFailed(usize),
    /// The device did not start.
    StartFailed(usize),
}

/// A failure that concerns one core; the number is the core's own.
#[derive(Clone, Copy, Debug, PartialEq, Eq, Structural)]
pub enum CoreError {
    /// The core is not a worker of the runtime.
    NotFound(usize),
    /// The core is a worker, but no port has a queue on it.
    NotAssigned(usize),
}

/// A failure that concerns a packet.
#[derive(Clone, Copy, Debug, PartialEq, Eq, Structural)]
pub enum PacketError {
    /// The environment had no buffer to give.
    FailedAllocation,
}

/// Every failure that the runtime reports.
#[derive(Clone, Debug, PartialEq, Eq)]
pub enum RuntimeError {
    /// The environment refused to initialise.
    EalInitFailed,
    /// The configuration names a core that the environment does not offer.
    CoreUnavailable(CoreId),
    /// No buffer pool could be created on the socket.
    AllocationFailed(SocketId),
    /// No buffer pool exists on the socket.
    SocketNotFound(SocketId),
    /// The executor of the core could not be brought up.
    CoreInitFailed(CoreId),
    /// The wait for a signal or for the timeout could not be set up.
    WaitFailed,
    Port(PortError),
    Core(CoreError),
}

impl PortError {
    /// The same error once more.
    pub fn duplicate(&self) -> (copy: PortError)
        ensures
            copy == *self,
    {
        match self {
            PortError::NotFound(name) => PortError::NotFound(name.clone()),
            PortError::DuplicateName(port) => PortError::DuplicateName(*port),
            PortError::CoreUnknown(port, core) => PortError::CoreUnknown(*port, *core),
            PortError::DeviceUnavailable(port) => PortError::DeviceUnavailable(*port),
            PortError::InvalidDescriptorCount(port) => PortError::InvalidDescriptorCount(*port),
            PortError::ConfigureFailed(port) => PortError::ConfigureFailed(*port),
            PortError::StartFailed(port) => PortError::StartFailed(*port),
        }
    }
}

impl RuntimeError {
    /// The same error once more.
    pub fn duplicate(&self) -> (copy: RuntimeError)
        ensures
            copy == *self,
    {
        match self {
            RuntimeError::EalInitFailed => RuntimeError::EalInitFailed,
            RuntimeError::CoreUnavailable(core) => RuntimeError::CoreUnavailable(*core),
            RuntimeError::AllocationFailed(socket) => RuntimeError::AllocationFailed(*socket),
            RuntimeError::SocketNotFound(socket) => RuntimeError::SocketNotFound(*socket),
            RuntimeError::CoreInitFailed(core) => RuntimeError::CoreInitFailed(*core),
            RuntimeError::WaitFailed => RuntimeError::WaitFailed,
            RuntimeError::Port(error) => RuntimeError::Port(error.duplicate()),
            RuntimeError::Core(error) => RuntimeError::Core(*error),
        }
    }
}

} // verus!
