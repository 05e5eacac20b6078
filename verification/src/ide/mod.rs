//! IDE support: the layout of the BSP files and the classpath generator.

pub mod bsp;
pub mod classpath_generator;

pub use classpath_generator::{generate_classpath, ClasspathGenerator};
