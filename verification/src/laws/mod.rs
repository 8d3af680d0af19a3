//! What the operations of the library come to, said of their results alone.
pub mod documents;
pub mod install;
pub mod launch;
pub mod plans;
pub mod requests;
pub mod seccomp;
