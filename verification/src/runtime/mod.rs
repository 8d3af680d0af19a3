//! Launching and keeping sandboxes.
pub mod aarch64;
pub mod abi;
pub mod bpf;
pub mod caps;
pub mod cgroup;
pub mod child;
pub mod defaults;
pub mod identities;
pub mod landlock;
pub mod launcher;
pub mod manager;
pub mod mounts;
pub mod plan;
pub mod probe;
pub mod rootfs;
pub mod seccomp;
