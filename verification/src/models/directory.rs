//! Directories of a project, with what is known of them on disk.

use crate::models::dependency::{msgs, push_msg, reports};
use crate::text::concat;
use crate::toolkit::os::{
    components, law_parent_of_join, path_file_name, path_join, path_parent, plain_name, render,
    PathWrapper,
};
use vstd::prelude::*;

verus! {

/// A directory: its path, its name and whether it exists.
#[derive(Debug, Clone)]
pub struct Directory {
    pub path: PathWrapper,
    pub name: String,
    pub exists: bool,
}

/// The name a directory gets: its path's file name, or empty when there is none.
pub open spec fn dir_name(p: Seq<char>) -> Seq<char> {
    match path_file_name(p) {
        Some(f) => f,
        None => seq![],
    }
}

/// The errors that `Directory::validate` reports, in order; `is_dir` says
/// whether the existing path is a directory.
pub open spec fn directory_errors(d: Directory, is_dir: bool) -> Seq<Seq<char>> {
    if !d.exists {
        seq!["目录不存在: "@ + d.path@]
    } else if !is_dir {
        seq!["路径不是目录: "@ + d.path@]
    } else {
        seq![]
    }
}

/// The sum of a list of sizes.
pub open spec fn sum_sizes(s: Seq<u64>) -> nat
    decreases s.len(),
{
    if s.len() == 0 {
        0
    } else {
        sum_sizes(s.drop_last()) + s.last() as nat
    }
}

/// A prefix sums to no more than the whole list.
pub proof fn lemma_sum_prefix(s: Seq<u64>, k: int)
    requires
        0 <= k <= s.len(),
    ensures
        sum_sizes(s.subrange(0, k)) <= sum_sizes(s),
    decreases s.len(),
{
    if k < s.len() {
        assert(s.drop_last().subrange(0, k) =~= s.subrange(0, k));
        lemma_sum_prefix(s.drop_last(), k);
    } else {
        assert(s.subrange(0, k) =~= s);
    }
}

impl Directory {
    /// The directory at `path`; `exists` says whether it is on disk.
    pub fn from_path(path: &PathWrapper, exists: bool) -> (r: Self)
        ensures
            r.path@ == path@,
            r.name@ == dir_name(path@),
            r.exists == exists,
    {
        let name = match path.file_name() {
            Some(f) => f,
            None => String::new(),
        };
        Directory { path: path.duplicate(), name, exists }
    }

    /// The subdirectory `name`; `exists` says whether it is on disk.
    pub fn get_subdirectory(&self, name: &str, exists: bool) -> (r: Directory)
        ensures
            r.path@ == path_join(self.path@, name@),
            r.name@ == dir_name(path_join(self.path@, name@)),
            r.exists == exists,
    {
        Directory::from_path(&self.path.join(name), exists)
    }

    /// The parent directory; `exists` says whether it is on disk.
    pub fn get_parent(&self, exists: bool) -> (r: Option<Directory>)
        ensures
            match r {
                Some(d) => path_parent(self.path@) == Some(d.path@) && d.exists == exists
                    && d.name@ == dir_name(d.path@),
                None => path_parent(self.path@) is None,
            },
    {
        match self.path.parent() {
            Some(p) => Some(Directory::from_path(&p, exists)),
            None => None,
        }
    }

    /// Whether the directory is empty: a missing directory is; an existing one
    /// is when `has_entry` (whether listing it yields an entry) is false.
    pub fn is_empty(&self, has_entry: bool) -> (b: bool)
        ensures
            b == (!self.exists || !has_entry),
    {
        !self.exists || !has_entry
    }

    /// The size of the directory: 0 when it is missing, else the sum of the
    /// sizes of the files found under it.
    pub fn get_size(&self, file_sizes: &Vec<u64>) -> (r: u64)
        requires
            sum_sizes(file_sizes@) <= u64::MAX,
        ensures
            r == (if self.exists {
                sum_sizes(file_sizes@)
            } else {
                0
            }),
    {
        if !self.exists {
            return 0;
        }
        let mut size: u64 = 0;
        let mut i: usize = 0;
        while i < file_sizes.len()
            invariant
                i <= file_sizes@.len(),
                sum_sizes(file_sizes@) <= u64::MAX,
                size == sum_sizes(file_sizes@.subrange(0, i as int)),
            decreases file_sizes@.len() - i,
        {
            assert(file_sizes@.subrange(0, i + 1).drop_last() =~= file_sizes@.subrange(0, i as int));
            proof {
                lemma_sum_prefix(file_sizes@, i as int + 1);
            }
            size = size + file_sizes[i];
            i = i + 1;
        }
        assert(file_sizes@.subrange(0, file_sizes@.len() as int) =~= file_sizes@);
        size
    }

    /// Checks the directory; `is_dir` says whether the existing path is a
    /// directory. The errors are those of `directory_errors`.
    pub fn validate(&self, is_dir: bool) -> (r: Result<(), Vec<String>>)
        ensures
            reports(r, directory_errors(*self, is_dir)),
    {
        let mut errors: Vec<String> = Vec::new();
        if !self.exists {
            push_msg(&mut errors, concat("目录不存在: ", self.path.as_path()));
        } else if !is_dir {
            push_msg(&mut errors, concat("路径不是目录: ", self.path.as_path()));
        }
        assert(msgs(errors@) =~= directory_errors(*self, is_dir));
        crate::models::dependency::into_report(errors)
    }

    /// The path of the directory.
    pub fn as_ref(&self) -> (r: &PathWrapper)
        ensures
            r == &self.path,
    {
        &self.path
    }
}

/// The parent of a subdirectory named by a plain name is the directory, as its
/// path's components write it: `get_parent` undoes `get_subdirectory`.
pub proof fn law_subdirectory_parent(d: Directory, name: Seq<char>, sub: Directory)
    requires
        plain_name(name),
        sub.path@ == path_join(d.path@, name),
    ensures
        path_parent(sub.path@) == Some(render(components(d.path@))),
{
    law_parent_of_join(d.path@, name);
}

} // verus!
