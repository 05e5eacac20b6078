//! Dependency resolution: the resolver interface and its Coursier stand-in.

pub mod coursier_resolver;
pub mod resolver;

pub use coursier_resolver::CoursierResolver;
pub use resolver::{get_dependencies, DependencyResolver};
