//! The build backend interface.

use crate::models::project::Project;
use crate::toolkit::os::PathWrapper;
use vstd::prelude::*;

verus! {

/// A build backend: builds, runs and tests a project.
pub trait BuildBackend {
    /// Builds the project into `output_dir`.
    fn build(&self, project: &Project, output_dir: &PathWrapper) -> Result<(), String>;

    /// Runs the project with `args`.
    fn run(&self, project: &Project, args: &Vec<String>) -> Result<(), String>;

    /// Tests the project.
    fn test(&self, project: &Project) -> Result<(), String>;
}

} // verus!
