//! The simulated kernel and the services it hosts.

pub mod console;
pub mod driver;
pub mod either;
pub mod fault;
pub mod kernel;
pub mod laws;
pub mod scope;
pub mod view;
