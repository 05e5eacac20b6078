//! The member manager.

use crate::models::project::{project_errors, Project};
use crate::text::{join_seq, join_strings, views};
use crate::config::manifest::{
    edit_manifest, lists_member, parsed_manifest, with_member, without_member, ManifestEdit,
    ManifestError,
};
use vstd::prelude::*;

verus! {

/// Manages the members of a workspace.
#[derive(Debug, Clone, Copy)]
pub struct MemberManager;

impl MemberManager {
    /// A new manager.
    pub fn new() -> (r: Self)
        ensures
            r == MemberManager,
    {
        MemberManager
    }

    /// Adds a member to the workspace manifest with text `manifest`: the text
    /// to write back, with `member_path` appended to `[workspace] members`
    /// (both made where missing); refused where the text is no TOML document or
    /// already lists the member.
    pub fn add_member(&self, manifest: &str, member_path: &str) -> (r: Result<String, ManifestError>)
        ensures
            r matches Err(ManifestError::Parse(_)) <==> parsed_manifest(manifest@) is None,
            r matches Err(ManifestError::Refused(_)) <==> (parsed_manifest(manifest@) matches Some(m)
                && lists_member(m, member_path@)),
            r matches Err(ManifestError::Refused(msg)) ==> msg@ == "Member '"@ + member_path@
                + "' already exists in workspace"@,
            r matches Ok(text) ==> parsed_manifest(text@) == Some(
                with_member(parsed_manifest(manifest@)->0, member_path@),
            ),
    {
        edit_manifest(manifest, &ManifestEdit::Member { path: member_path.to_owned() })
    }

    /// Removes a member from the workspace manifest with text `manifest`: the
    /// text to write back, with the first `member_path` taken out of
    /// `[workspace] members`; refused where the text is no TOML document or
    /// does not list the member.
    pub fn remove_member(&self, manifest: &str, member_path: &str) -> (r: Result<String, ManifestError>)
        ensures
            r matches Err(ManifestError::Parse(_)) <==> parsed_manifest(manifest@) is None,
            r matches Err(ManifestError::Refused(_)) <==> (parsed_manifest(manifest@) matches Some(m)
                && !lists_member(m, member_path@)),
            r matches Err(ManifestError::Refused(msg)) ==> msg@ == "Member '"@ + member_path@
                + "' is not in workspace"@,
            r matches Ok(text) ==> parsed_manifest(text@) == Some(
                without_member(parsed_manifest(manifest@)->0, member_path@),
            ),
    {
        edit_manifest(manifest, &ManifestEdit::RemoveMember { path: member_path.to_owned() })
    }

    /// Checks a member project: accepted exactly when it passes validation,
    /// else refused with its errors, one per line.
    pub fn validate_member(&self, member_project: &Project) -> (r: Result<(), String>)
        ensures
            r is Ok <==> project_errors(*member_project).len() == 0,
            r matches Err(e) ==> e@ == join_seq(project_errors(*member_project), "\n"@),
    {
        match member_project.validate() {
            Ok(()) => Ok(()),
            Err(es) => {
                let e = join_strings(&es, "\n");
                assert(views(es@) =~= project_errors(*member_project));
                Err(e)
            },
        }
    }
}

} // verus!
