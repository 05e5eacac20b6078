//! Sinter: a Cargo-like build tool for Scala projects.
//!
//! This crate holds the verified core of the tool: the project model and its
//! validation rules, dependency coordinates and their parsing, templates and
//! path handling, and the planning of build-tool invocations.

pub mod text;
pub mod models;
pub mod toolkit;
pub mod deps;
pub mod build;
pub mod ide;
pub mod dependency;
pub mod workspace;
pub mod config;
pub mod cli;
pub mod plugins;
