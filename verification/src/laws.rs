//! What can be relied on: laws over whole courses of calls, in terms of what goes in and what
//! comes out.

pub mod addresses;
pub mod agents;
pub mod applications;
pub mod components;
pub mod deployments;
pub mod events;
pub mod limits;
pub mod packages;
pub mod passes;
pub mod statistics;
pub mod texts;
