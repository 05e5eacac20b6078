//! Path management: one path type with the operations of `PathWrapper`,
//! the template locations, and path checks.

pub mod manager;
pub mod paths;
pub mod validation;

pub use manager::PathManager;
