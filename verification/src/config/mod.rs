//! Loading the manifest: what a parsed `project.toml` becomes, which
//! directories are searched for a workspace root, and how a workspace and its
//! members are put together.

use crate::models::dependency::msgs;
use crate::models::dependency::DependencyDto;
use crate::models::project::{
    default_backend, default_scala_version, default_source_dir, default_target_dir,
    default_test_dir, project_errors, spec_package_from_dto, PackageDto, Project, ProjectDto,
};
use crate::models::workspace::WorkspaceDto;
use crate::models::workspace::pairs_map;
use crate::text::{concat, join_seq, join_strings};
use crate::toolkit::os::{comps, components, render, Comp, PathComponent, PathWrapper};
use crate::toolkit::os::{lemma_render_prefix_is_prefix, path_join, path_starts_with, render_range};
use vstd::prelude::*;

pub mod manifest;

verus! {

// ───────────────────────────── a single project ─────────────────────────────

/// `p` is the project a manifest's transfer form describes, rooted at `root`
/// (its workspace, if any, keeps an empty root).
pub open spec fn loaded_from(p: Project, dto: ProjectDto, root: Seq<char>) -> bool {
    &&& p.root_path@ == root
    &&& p.package == spec_package_from_dto(dto.package)
    &&& p.dependencies.as_map() == pairs_map(dto.dependencies@)
    &&& (p.workspace is Some <==> dto.workspace is Some)
    &&& (p.workspace matches Some(w) ==> w.root_path@ == Seq::<char>::empty() && w.members
        == dto.workspace->0.members && w.dependencies.as_map() == pairs_map(
        dto.workspace->0.dependencies@,
    ))
}

/// The message of a manifest that fails validation: a header line, then the
/// errors one per line.
pub open spec fn load_failure_message(errors: Seq<Seq<char>>) -> Seq<char> {
    "项目配置验证失败:\n"@ + join_seq(errors, "\n"@)
}

/// The project a parsed manifest describes, rooted at the (canonical) project
/// directory, once it passes validation; otherwise the validation errors in
/// one message.
pub fn load_project(dto: ProjectDto, root: PathWrapper) -> (r: Result<Project, String>)
    ensures
        r matches Ok(p) ==> loaded_from(p, dto, root@) && project_errors(p).len() == 0,
        r matches Err(e) ==> exists|p: Project|
            loaded_from(p, dto, root@) && project_errors(p).len() > 0 && e@
                == load_failure_message(#[trigger] project_errors(p)),
{
    let ghost d = dto;
    let mut p = Project::from_dto(dto);
    p.root_path = root;
    match p.validate() {
        Ok(()) => Ok(p),
        Err(es) => {
            let joined = join_strings(&es, "\n");
            let msg = concat("项目配置验证失败:\n", joined.as_str());
            assert(loaded_from(p, d, root@));
            Err(msg)
        },
    }
}

// ───────────────────────────── the workspace root ─────────────────────────────

/// How many proper ancestors a path with components `cs` has: one per
/// component, except that the root has none.
pub open spec fn ancestor_count(cs: Seq<Comp>) -> nat {
    if cs.len() > 0 && cs[0] == Comp::Root {
        (cs.len() - 1) as nat
    } else {
        cs.len()
    }
}

/// The directories searched for a workspace manifest, nearest first: the
/// start directory itself, then each parent in turn (the paths of its first
/// `n - 1`, `n - 2`, ... components) up to the root or the empty path.
pub fn ancestors(start: &PathWrapper) -> (r: Vec<PathWrapper>)
    ensures
        r@.len() == 1 + ancestor_count(components(start@)),
        r@[0]@ == start@,
        forall|j: int|
            1 <= j < r@.len() ==> (#[trigger] r@[j])@ == render(
                components(start@).take(components(start@).len() - j),
            ),
{
    let cs = start.components();
    let n = cs.len();
    let stop: usize = if n > 0 {
        match &cs[0] {
            PathComponent::RootDir => 1,
            _ => 0,
        }
    } else {
        0
    };
    let mut out: Vec<PathWrapper> = Vec::new();
    out.push(start.duplicate());
    let mut k: usize = n;
    while k > stop
        invariant
            stop <= k <= n,
            n == cs@.len(),
            comps(cs@) == components(start@),
            stop == (if n > 0 && comps(cs@)[0] == Comp::Root { 1int } else { 0int }),
            out@.len() == 1 + (n - k),
            out@[0]@ == start@,
            forall|j: int|
                1 <= j < out@.len() ==> (#[trigger] out@[j])@ == render(
                    comps(cs@).take(n - j),
                ),
        decreases k,
    {
        k = k - 1;
        let t = render_range(&cs, 0, k);
        proof {
            assert(comps(cs@).subrange(0, k as int) == comps(cs@).take(k as int));
        }
        out.push(PathWrapper::from_string(t));
    }
    proof {
        if n > 0 {
            assert(comps(cs@)[0] == cs@[0].view());
        }
    }
    out
}

/// Every directory searched for a workspace root contains the start
/// directory: the `j`-th proper ancestor `ancestors` lists is a prefix of the
/// start, component by component, so the root found lies above it.
pub proof fn law_searched_directories_contain_start(start: Seq<char>, j: int)
    requires
        1 <= j <= ancestor_count(components(start)),
    ensures
        path_starts_with(start, render(components(start).take(components(start).len() - j))),
{
    lemma_render_prefix_is_prefix(start, components(start).len() - j);
}

/// A manifest as the workspace search and the workspace loading read it: a
/// workspace manifest may hold a workspace section without a package section.
pub struct WorkspaceManifest {
    pub package: Option<PackageDto>,
    pub dependencies: Vec<(String, DependencyDto)>,
    pub workspace: Option<WorkspaceDto>,
}

/// Whether a manifest declares a workspace, with or without a package section.
pub fn declares_workspace(m: &WorkspaceManifest) -> (b: bool)
    ensures
        b == m.workspace is Some,
{
    m.workspace.is_some()
}

/// The transfer form of a workspace manifest: its package section, or, where
/// it has none, a package with an empty name and version and the default
/// settings.
pub fn workspace_root_dto(m: WorkspaceManifest) -> (r: ProjectDto)
    ensures
        m.package matches Some(p) ==> r.package == p,
        m.package is None ==> {
            &&& r.package.name@ == Seq::<char>::empty()
            &&& r.package.version@ == Seq::<char>::empty()
            &&& r.package.main is None
            &&& r.package.scala_version@ == "2.13"@
            &&& r.package.source_dir@ == "src/main/scala"@
            &&& r.package.target_dir@ == "target"@
            &&& r.package.test_dir@ == "src/test/scala"@
            &&& r.package.backend@ == "scala-cli"@
        },
        r.dependencies == m.dependencies,
        r.workspace == m.workspace,
{
    let package = match m.package {
        Some(p) => p,
        None => PackageDto {
            name: String::new(),
            version: String::new(),
            main: None,
            scala_version: default_scala_version(),
            source_dir: default_source_dir(),
            target_dir: default_target_dir(),
            test_dir: default_test_dir(),
            backend: default_backend(),
        },
    };
    ProjectDto { package, dependencies: m.dependencies, workspace: m.workspace }
}

/// The nearest searched directory whose manifest declares a workspace:
/// `is_workspace[i]` tells whether `candidates[i]` holds such a manifest.
pub fn find_workspace_root(candidates: &Vec<PathWrapper>, is_workspace: &Vec<bool>) -> (r: Option<
    PathWrapper,
>)
    requires
        candidates@.len() == is_workspace@.len(),
    ensures
        r is None <==> forall|i: int| 0 <= i < is_workspace@.len() ==> !is_workspace@[i],
        r matches Some(p) ==> exists|i: int|
            0 <= i < candidates@.len() && #[trigger] is_workspace@[i] && p@ == candidates@[i]@
                && forall|j: int| 0 <= j < i ==> !is_workspace@[j],
{
    let mut i: usize = 0;
    while i < candidates.len()
        invariant
            candidates@.len() == is_workspace@.len(),
            i <= candidates@.len(),
            forall|j: int| 0 <= j < i ==> !is_workspace@[j],
        decreases candidates@.len() - i,
    {
        if is_workspace[i] {
            return Some(candidates[i].duplicate());
        }
        i = i + 1;
    }
    None
}

// ───────────────────────────── a workspace ─────────────────────────────

/// The directories of the members: each member path under the workspace directory.
pub fn member_dirs(dir: &PathWrapper, members: &Vec<String>) -> (r: Vec<PathWrapper>)
    ensures
        r@.len() == members@.len(),
        forall|i: int| 0 <= i < r@.len() ==> (#[trigger] r@[i])@ == path_join(dir@, members@[i]@),
{
    let mut out: Vec<PathWrapper> = Vec::new();
    let mut i: usize = 0;
    while i < members.len()
        invariant
            i <= members@.len(),
            out@.len() == i,
            forall|j: int| 0 <= j < i ==> (#[trigger] out@[j])@ == path_join(dir@, members@[j]@),
        decreases members@.len() - i,
    {
        out.push(dir.join(members[i].as_str()));
        i = i + 1;
    }
    out
}

/// The message of a member that could not be loaded.
pub open spec fn member_failure_message(member: Seq<char>) -> Seq<char> {
    "Failed to load workspace member: "@ + member
}

/// A workspace with its members: `None` when the root manifest declares no
/// workspace; otherwise the members in the order the manifest lists them,
/// or the message naming the first member that failed to load.
/// `loaded[i]` is the outcome of loading the member `members[i]`.
pub fn load_workspace(root: Project, mut loaded: Vec<Result<Project, String>>) -> (r: Result<
    Option<(Project, Vec<Project>)>,
    String,
>)
    requires
        root.workspace matches Some(w) ==> loaded@.len() == w.members@.len(),
    ensures
        root.workspace is None ==> r == Ok::<Option<(Project, Vec<Project>)>, String>(None),
        root.workspace matches Some(w) ==> match r {
            Ok(Some((p, ms))) => p == root && (forall|i: int| 0 <= i < loaded@.len() ==> #[trigger] loaded@[i] is Ok)
                && ms@.len() == loaded@.len() && forall|i: int|
                0 <= i < ms@.len() ==> loaded@[i] == Ok::<Project, String>(#[trigger] ms@[i]),
            Ok(None) => false,
            Err(e) => exists|i: int|
                0 <= i < loaded@.len() && #[trigger] loaded@[i] is Err && (forall|j: int|
                    0 <= j < i ==> loaded@[j] is Ok) && e@ == member_failure_message(
                    w.members@[i]@,
                ),
        },
{
    if root.workspace.is_none() {
        return Ok(None);
    }
    let ghost all = loaded@;
    let n = loaded.len();
    let mut members: Vec<Project> = Vec::new();
    let mut failed: Option<usize> = None;
    let mut i: usize = 0;
    while i < n
        invariant_except_break
            failed is None,
            loaded@ == all.subrange(i as int, n as int),
        invariant
            root.workspace is Some,
            n == all.len() == root.workspace->0.members@.len(),
            i <= n,
            members@.len() == i,
            forall|j: int| 0 <= j < i ==> all[j] == Ok::<Project, String>(#[trigger] members@[j]),
        ensures
            failed matches Some(k) ==> k == i && i < n && all[i as int] is Err,
            failed is None ==> i == n,
        decreases n - i,
    {
        let item = loaded.remove(0);
        assert(item == all[i as int]);
        assert(loaded@ =~= all.subrange(i + 1, n as int));
        match item {
            Ok(p) => {
                members.push(p);
            },
            Err(_) => {
                failed = Some(i);
                break;
            },
        }
        i = i + 1;
    }
    match failed {
        Some(k) => {
            let name = match &root.workspace {
                Some(w) => concat("Failed to load workspace member: ", w.members[k].as_str()),
                None => String::new(),
            };
            assert forall|j: int| 0 <= j < k implies #[trigger] all[j] is Ok by {
                assert(all[j] == Ok::<Project, String>(members@[j]));
            }
            assert(all[k as int] is Err);
            Err(name)
        },
        None => {
            assert forall|j: int| 0 <= j < all.len() implies #[trigger] all[j] is Ok by {
                assert(all[j] == Ok::<Project, String>(members@[j]));
            }
            Ok(Some((root, members)))
        },
    }
}

} // verus!
