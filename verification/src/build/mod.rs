//! Building and running: entry-point detection, and the command lines handed
//! to scala-cli and to the other build tools.

pub mod backend;
pub mod common;
pub mod runner;
pub mod sbt_builder;
pub mod scala_cli;

pub use runner::{has_main_method, RunMode, RunResult};
