//! The sbt backend, which accepts every request and does nothing yet.

use crate::build::backend::BuildBackend;
use crate::models::project::Project;
use crate::toolkit::os::PathWrapper;
use vstd::prelude::*;

verus! {

/// The sbt build backend.
#[derive(Debug, Clone, Copy)]
pub struct SbtBuilder;

impl BuildBackend for SbtBuilder {
    fn build(&self, project: &Project, output_dir: &PathWrapper) -> (r: Result<(), String>)
        ensures
            r is Ok,
    {
        Ok(())
    }

    fn run(&self, project: &Project, args: &Vec<String>) -> (r: Result<(), String>)
        ensures
            r is Ok,
    {
        Ok(())
    }

    fn test(&self, project: &Project) -> (r: Result<(), String>)
        ensures
            r is Ok,
    {
        Ok(())
    }
}

} // verus!
