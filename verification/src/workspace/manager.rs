//! The workspace manager.

use crate::models::workspace::{workspace_errors, Workspace};
use crate::text::{join_seq, join_strings, views};
use vstd::prelude::*;

verus! {

/// Manages a workspace.
#[derive(Debug, Clone, Copy)]
pub struct WorkspaceManager;

impl WorkspaceManager {
    /// A new manager.
    pub fn new() -> (r: Self)
        ensures
            r == WorkspaceManager,
    {
        WorkspaceManager
    }

    /// Checks a workspace's configuration: accepted exactly when it passes
    /// validation, else refused with its errors, one per line.
    pub fn validate_workspace(&self, workspace: &Workspace) -> (r: Result<(), String>)
        ensures
            r is Ok <==> workspace_errors(*workspace).len() == 0,
            r matches Err(e) ==> e@ == join_seq(workspace_errors(*workspace), "\n"@),
    {
        match workspace.validate() {
            Ok(()) => Ok(()),
            Err(es) => {
                let e = join_strings(&es, "\n");
                assert(views(es@) =~= workspace_errors(*workspace));
                Err(e)
            },
        }
    }
}

} // verus!
