//! Creating a project's directories and files, as paths under a base.

use crate::toolkit::os::{path_join, PathWrapper};
use crate::toolkit::template::{fill_all, fill_all_text, pair_views};
use vstd::prelude::*;

verus! {

/// Creates directory structures and files under a base directory.
#[derive(Debug, Clone)]
pub struct ProjectCreator {
    base_path: PathWrapper,
}

impl ProjectCreator {
    /// The base directory.
    pub closed spec fn base(&self) -> Seq<char> {
        self.base_path@
    }

    /// A creator for the base directory `base_path`.
    pub fn new(base_path: &str) -> (r: Self)
        ensures
            r.base() == base_path@,
    {
        ProjectCreator { base_path: PathWrapper::new(base_path) }
    }

    /// The path of `relative` under the base directory.
    pub fn path_of(&self, relative: &str) -> (r: PathWrapper)
        ensures
            r@ == path_join(self.base(), relative@),
    {
        self.base_path.join(relative)
    }

    /// The paths of the directories to create, in order.
    pub fn dir_paths(&self, dirs: &Vec<&str>) -> (r: Vec<PathWrapper>)
        ensures
            r@.len() == dirs@.len(),
            forall|i: int| 0 <= i < dirs@.len() ==> #[trigger] r@[i]@ == path_join(self.base(), dirs@[i]@),
    {
        let mut out: Vec<PathWrapper> = Vec::new();
        let mut i: usize = 0;
        while i < dirs.len()
            invariant
                i <= dirs@.len(),
                out@.len() == i,
                forall|j: int| 0 <= j < i ==> #[trigger] out@[j]@ == path_join(self.base(), dirs@[j]@),
            decreases dirs@.len() - i,
        {
            out.push(self.base_path.join(dirs[i]));
            i = i + 1;
        }
        out
    }

    /// The text of a template file once the replacements are applied in order.
    pub fn template_content(&self, template: &str, replacements: &Vec<(&str, &str)>) -> (r: String)
        ensures
            r@ == fill_all(template@, pair_views(replacements@)),
    {
        fill_all_text(template, replacements)
    }
}

} // verus!
