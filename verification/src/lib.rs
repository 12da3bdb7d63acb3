//! A model of the system-call boundary between an unprivileged process and a
//! microkernel, with a simulated kernel to run callers against.
//!
//! A process reaches a kernel service through four primitives: a command, a
//! grant of a memory region for reading or for reading and writing, a
//! subscription to notifications, and a wait for the next notification.
//! Grants and subscriptions are made through a scope and end with it.
//!
//! - [`error_code`], [`command_return`], [`allow`] and [`upcall`] hold the
//!   values that cross the boundary.
//! - [`fake`] holds the simulated kernel: the registry of services, the
//!   queue of notifications, scopes, fault injection, a simulated console,
//!   and the laws that hold of all of them.
//! - [`alarm`], [`block_storage`], [`console`] and [`screen`] are callers of
//!   the primitives: one module for each service that a process drives.
//! - [`runner`] prepares the command line that turns a process binary into
//!   the format the kernel loads.

pub mod alarm;
pub mod allow;
pub mod block_storage;
pub mod command_return;
pub mod console;
pub mod error_code;
pub mod fake;
pub mod runner;
pub mod screen;
pub mod upcall;
