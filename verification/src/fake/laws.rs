//! What holds of the simulated kernel whatever services it hosts.

pub mod fault;
pub mod grant;
pub mod queue;
pub mod scope;
