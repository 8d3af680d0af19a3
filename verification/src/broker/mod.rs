//! The broker: sessions with byte budgets, and the only way out of a sandbox.
pub mod audit;
pub mod course;
pub mod egress;
pub mod forward;
pub mod head;
pub mod identity;
pub mod proxy;
