//! The core of a kernel-bypass packet-processing runtime: which port queue
//! belongs to which core, which buffer pool serves which socket, and the order
//! in which cores and ports are brought up and torn down.
//!
//! The library decides and keeps the books; it performs no I/O. Whoever
//! embeds it carries out each directive against the poll-mode environment and
//! reports back what happened.

pub mod assembly;
pub mod bootstrap;
pub mod core_map;
pub mod distinct;
pub mod error;
pub mod laws;
pub mod machine;
pub mod mempool_map;
pub mod port;
pub mod raw;
pub mod runtime;
pub mod settings;
pub mod signal;
pub mod topology;

pub use crate::bootstrap::{Bootstrap, Progress};
pub use crate::error::RuntimeError;
pub use crate::raw::RawPacket;
pub use crate::runtime::Runtime;
pub use crate::settings::RuntimeSettings;
pub use crate::signal::UnixSignal;
