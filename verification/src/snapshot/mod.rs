//! Snapshots of sandboxes.
pub mod criu;
pub mod turn;
pub mod workspace;
