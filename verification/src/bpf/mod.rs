//! What userspace keeps in the kernel's BPF maps, and what it reads from them.
pub mod audit;
pub mod exec_rules;
pub mod holdings;
pub mod loader;
pub mod maps;
pub mod net_rules;
pub mod ranges;
pub mod records;
