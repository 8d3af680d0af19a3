//! Policy documents and what they compile to.
pub mod compile;
pub mod grants;
pub mod landlock_bits;
pub mod parser;
pub mod yaml;
