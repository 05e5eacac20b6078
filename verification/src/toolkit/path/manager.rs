//! `PathManager`: the path type used by the commands.

use crate::toolkit::os::{
    comps, components, path_extension, path_file_name, path_join, path_parent, path_starts_with,
    path_strip_prefix, PathComponent, PathWrapper,
};
use crate::toolkit::os::{entries_of_kind, walk_of_kind, WalkEntry};
use vstd::prelude::*;

verus! {

/// A path, with the path operations the commands use.
#[derive(Debug, Clone)]
pub struct PathManager(PathWrapper);

impl View for PathManager {
    type V = Seq<char>;

    open spec fn view(&self) -> Seq<char> {
        self.text()
    }
}

impl PathManager {
    /// The text of the path.
    pub closed spec fn text(&self) -> Seq<char> {
        self.0@
    }

    /// A path with the given text.
    pub fn new(path: &str) -> (r: PathManager)
        ensures
            r@ == path@,
    {
        PathManager(PathWrapper::new(path))
    }

    /// The path held by a `PathWrapper`.
    pub fn from_wrapper(wrapper: PathWrapper) -> (r: PathManager)
        ensures
            r@ == wrapper@,
    {
        PathManager(wrapper)
    }

    /// `self` with `path` pushed onto it.
    pub fn join(&self, path: &str) -> (r: PathManager)
        ensures
            r@ == path_join(self@, path@),
    {
        PathManager(self.0.join(path))
    }

    /// The path without its last component.
    pub fn parent(&self) -> (r: Option<PathManager>)
        ensures
            match r {
                Some(p) => path_parent(self@) == Some(p@),
                None => path_parent(self@) is None,
            },
    {
        match self.0.parent() {
            Some(p) => Some(PathManager(p)),
            None => None,
        }
    }

    /// The last component, when it is a normal one.
    pub fn file_name(&self) -> (r: Option<String>)
        ensures
            match r {
                Some(f) => path_file_name(self@) == Some(f@),
                None => path_file_name(self@) is None,
            },
    {
        self.0.file_name()
    }

    /// The extension of the file name.
    pub fn extension(&self) -> (r: Option<String>)
        ensures
            match r {
                Some(e) => path_extension(self@) == Some(e@),
                None => path_extension(self@) is None,
            },
    {
        self.0.extension()
    }

    /// `self` relative to `base`; `self` unchanged when `base` is not a prefix of it.
    pub fn relative_to(&self, base: &PathManager) -> (r: PathManager)
        ensures
            r@ == match path_strip_prefix(self@, base@) {
                Some(rest) => rest,
                None => self@,
            },
    {
        PathManager(self.0.relative_to(&base.0))
    }

    /// Whether `base`'s components are the first components of `self`.
    pub fn starts_with(&self, base: &PathManager) -> (b: bool)
        ensures
            b == path_starts_with(self@, base@),
    {
        self.0.starts_with(&base.0)
    }

    /// The components of the path.
    pub fn components(&self) -> (r: Vec<PathComponent>)
        ensures
            comps(r@) == components(self@),
    {
        self.0.components()
    }

    /// The text of the path.
    pub fn as_path(&self) -> (r: &str)
        ensures
            r@ == self@,
    {
        self.0.as_path()
    }

    /// The path as a `PathWrapper`.
    pub fn to_path_buf(&self) -> (r: PathWrapper)
        ensures
            r@ == self@,
    {
        self.0.duplicate()
    }

    /// The inner `PathWrapper`.
    pub fn inner(&self) -> (r: &PathWrapper)
        ensures
            r@ == self@,
    {
        &self.0
    }

    /// The text of the path as a new string.
    pub fn to_string_lossy(&self) -> (r: String)
        ensures
            r@ == self@,
    {
        self.0.to_string_lossy()
    }

    /// A copy of the path.
    pub fn duplicate(&self) -> (r: PathManager)
        ensures
            r@ == self@,
    {
        PathManager(self.0.duplicate())
    }
    /// Every path met walking the tree under `self`, in walking order;
    /// `entries` is what the walk met.
    pub fn walk(&self, entries: &Vec<WalkEntry>) -> (r: Vec<PathManager>)
        ensures
            r@.len() == entries@.len(),
            forall|i: int| 0 <= i < r@.len() ==> (#[trigger] r@[i])@ == entries@[i].path@,
    {
        let mut out: Vec<PathManager> = Vec::new();
        let mut i: usize = 0;
        while i < entries.len()
            invariant
                i <= entries@.len(),
                out@.len() == i,
                forall|j: int| 0 <= j < i ==> (#[trigger] out@[j])@ == entries@[j].path@,
            decreases entries@.len() - i,
        {
            out.push(PathManager(entries[i].path.duplicate()));
            i = i + 1;
        }
        out
    }

    /// The files met walking the tree under `self`, in walking order.
    pub fn walk_files(&self, entries: &Vec<WalkEntry>) -> (r: Vec<PathManager>)
        ensures
            manager_views(r@) == entries_of_kind(entries@, true),
    {
        wrap_all(walk_of_kind(entries, true))
    }

    /// The directories met walking the tree under `self`, in walking order.
    pub fn walk_dirs(&self, entries: &Vec<WalkEntry>) -> (r: Vec<PathManager>)
        ensures
            manager_views(r@) == entries_of_kind(entries@, false),
    {
        wrap_all(walk_of_kind(entries, false))
    }
}

/// The paths of a list of managed paths.
pub open spec fn manager_views(v: Seq<PathManager>) -> Seq<Seq<char>> {
    v.map_values(|p: PathManager| p@)
}

fn wrap_all(v: Vec<PathWrapper>) -> (r: Vec<PathManager>)
    ensures
        manager_views(r@) == crate::toolkit::os::path_views(v@),
{
    let mut out: Vec<PathManager> = Vec::new();
    let mut i: usize = 0;
    while i < v.len()
        invariant
            i <= v@.len(),
            out@.len() == i,
            forall|j: int| 0 <= j < i ==> (#[trigger] out@[j])@ == v@[j]@,
        decreases v@.len() - i,
    {
        out.push(PathManager(v[i].duplicate()));
        i = i + 1;
    }
    assert(manager_views(out@) =~= crate::toolkit::os::path_views(v@));
    out
}

} // verus!
