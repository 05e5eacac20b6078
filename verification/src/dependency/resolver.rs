//! The resolver interface.

use crate::deps::Dependency;
use crate::models::project::Project;
use vstd::prelude::*;

pub use crate::deps::get_dependencies;

verus! {

/// Resolves the dependencies of a project.
pub trait DependencyResolver {
    /// The dependencies of a project.
    fn resolve_dependencies(&self, project: &Project) -> Vec<Dependency>;

    /// The dependencies of a project, with `workspace = true` entries looked up
    /// in the workspace root.
    fn resolve_dependencies_with_workspace(
        &self,
        project: &Project,
        workspace_root: Option<&Project>,
    ) -> Vec<Dependency>;
}

} // verus!
