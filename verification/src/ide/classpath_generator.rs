//! The classpath generator, which produces an empty classpath.

use crate::deps::Dependency;
use crate::models::project::Project;
use vstd::prelude::*;

verus! {

/// Generates classpaths.
#[derive(Debug, Clone, Copy)]
pub struct ClasspathGenerator;

impl ClasspathGenerator {
    /// The classpath of a project: empty.
    pub fn generate_classpath(&self, project: &Project, dependencies: &Vec<Dependency>) -> (r: Result<
        String,
        String,
    >)
        ensures
            r matches Ok(s) && s@.len() == 0,
    {
        Ok(String::new())
    }

    /// The classpath of a workspace: empty.
    pub fn generate_workspace_classpath(
        &self,
        projects: &Vec<Project>,
        dependencies: &Vec<Dependency>,
    ) -> (r: Result<String, String>)
        ensures
            r matches Ok(s) && s@.len() == 0,
    {
        Ok(String::new())
    }
}

/// The classpath of a project: empty.
pub fn generate_classpath(project: &Project, dependencies: &Vec<Dependency>) -> (r: Result<
    String,
    String,
>)
    ensures
        r matches Ok(s) && s@.len() == 0,
{
    Ok(String::new())
}

} // verus!
