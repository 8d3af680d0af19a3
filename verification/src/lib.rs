//! The rules of the AIVisor sandbox runtime.
pub mod bpf;
pub mod broker;
pub mod capability;
pub mod cli;
pub mod daemon;
pub mod error;
pub mod escape;
pub mod id;
pub mod laws;
pub mod net;
pub mod number;
pub mod paths;
pub mod policy;
pub mod policy_ref;
pub mod runtime;
pub mod sandbox;
pub mod snapshot;
pub mod state;
pub mod text;
pub mod wire;
