//! The Coursier resolver, which resolves nothing yet.

use super::resolver::DependencyResolver;
use crate::deps::Dependency;
use crate::models::project::Project;
use vstd::prelude::*;

verus! {

/// The Coursier resolver: every resolution is empty.
#[derive(Debug, Clone, Copy)]
pub struct CoursierResolver;

impl DependencyResolver for CoursierResolver {
    fn resolve_dependencies(&self, project: &Project) -> (r: Vec<Dependency>)
        ensures
            r@.len() == 0,
    {
        Vec::new()
    }

    fn resolve_dependencies_with_workspace(
        &self,
        project: &Project,
        workspace_root: Option<&Project>,
    ) -> (r: Vec<Dependency>)
        ensures
            r@.len() == 0,
    {
        Vec::new()
    }
}

} // verus!
