//! Projects: the package section, the dependencies and an optional workspace.

use crate::models::dep_map::{names_distinct, DependencyMap};
use crate::models::dependency::{msgs, push_msg, reports, DependencyDto, DependencySpec};
use crate::models::directory::Directory;
use crate::models::library::{library_from_spec, Library};
use crate::models::workspace::{
    clone_strings, dto_pairs_match, labelled_dep_errors, map_from_dto_pairs, map_to_dto_pairs,
    law_dependency_table_roundtrip, pairs_map, push_dep_errors, workspace_errors, Workspace,
    WorkspaceDto,
};
use crate::text::{concat, concat3, is_blank, is_blank_seq, starts_with_seq, starts_with_str};
use crate::toolkit::os::{path_join, PathWrapper};
use vstd::prelude::*;

verus! {

/// The package section of a manifest.
#[derive(Debug, Clone)]
pub struct Package {
    pub name: String,
    pub version: String,
    pub main: Option<String>,
    pub scala_version: String,
    pub source_dir: String,
    pub target_dir: String,
    pub test_dir: String,
    pub backend: String,
}

/// The transfer form of a package section.
#[derive(Debug, Clone)]
pub struct PackageDto {
    pub name: String,
    pub version: String,
    pub main: Option<String>,
    pub scala_version: String,
    pub source_dir: String,
    pub target_dir: String,
    pub test_dir: String,
    pub backend: String,
}

/// A project: its root directory and its manifest.
#[derive(Debug)]
pub struct Project {
    pub root_path: PathWrapper,
    pub package: Package,
    pub dependencies: DependencyMap,
    pub workspace: Option<Workspace>,
}

/// The transfer form of a manifest.
#[derive(Debug, Clone)]
pub struct ProjectDto {
    pub package: PackageDto,
    pub dependencies: Vec<(String, DependencyDto)>,
    pub workspace: Option<WorkspaceDto>,
}

// ───────────────────────────── defaults ─────────────────────────────

/// The Scala version when the manifest names none.
pub fn default_scala_version() -> (r: String)
    ensures
        r@ == "2.13"@,
{
    "2.13".to_owned()
}

/// The source directory when the manifest names none.
pub fn default_source_dir() -> (r: String)
    ensures
        r@ == "src/main/scala"@,
{
    "src/main/scala".to_owned()
}

/// The target directory when the manifest names none.
pub fn default_target_dir() -> (r: String)
    ensures
        r@ == "target"@,
{
    "target".to_owned()
}

/// The test directory when the manifest names none.
pub fn default_test_dir() -> (r: String)
    ensures
        r@ == "src/test/scala"@,
{
    "src/test/scala".to_owned()
}

/// The build backend when the manifest names none.
pub fn default_backend() -> (r: String)
    ensures
        r@ == "scala-cli"@,
{
    "scala-cli".to_owned()
}

// ───────────────────────────── package validation ─────────────────────────────

/// The build backends the tool knows.
pub open spec fn known_backend(b: Seq<char>) -> bool {
    b == "scala-cli"@ || b == "sbt"@ || b == "gradle"@ || b == "maven"@
}

pub open spec fn msg_unknown_backend(b: Seq<char>) -> Seq<char> {
    "不支持的后端: "@ + b + "，支持的后端: scala-cli, sbt, gradle, maven"@
}

/// `cond` as a one-message or empty list.
pub open spec fn err_if(cond: bool, m: Seq<char>) -> Seq<Seq<char>> {
    if cond {
        seq![m]
    } else {
        seq![]
    }
}

/// The errors that `Package::validate` reports, in order.
pub open spec fn package_errors(p: Package) -> Seq<Seq<char>> {
    err_if(is_blank_seq(p.name@), "项目名称不能为空"@) + err_if(
        is_blank_seq(p.version@),
        "项目版本不能为空"@,
    ) + err_if(
        !starts_with_seq(p.scala_version@, "2."@) && !starts_with_seq(p.scala_version@, "3."@),
        "Scala版本格式无效，应为 2.x 或 3.x"@,
    ) + err_if(is_blank_seq(p.source_dir@), "源代码目录不能为空"@) + err_if(
        is_blank_seq(p.target_dir@),
        "目标目录不能为空"@,
    ) + err_if(!known_backend(p.backend@), msg_unknown_backend(p.backend@))
}

/// Whether `b` names a known build backend.
pub fn is_known_backend(b: &str) -> (r: bool)
    ensures
        r == known_backend(b@),
{
    crate::text::eq_str(b, "scala-cli") || crate::text::eq_str(b, "sbt") || crate::text::eq_str(
        b,
        "gradle",
    ) || crate::text::eq_str(b, "maven")
}

impl Package {
    /// Checks the package section; the errors are those of `package_errors`.
    pub fn validate(&self) -> (r: Result<(), Vec<String>>)
        ensures
            reports(r, package_errors(*self)),
    {
        let mut errors: Vec<String> = Vec::new();
        if is_blank(self.name.as_str()) {
            push_msg(&mut errors, "项目名称不能为空".to_owned());
        }
        if is_blank(self.version.as_str()) {
            push_msg(&mut errors, "项目版本不能为空".to_owned());
        }
        if !starts_with_str(self.scala_version.as_str(), "2.") && !starts_with_str(
            self.scala_version.as_str(),
            "3.",
        ) {
            push_msg(&mut errors, "Scala版本格式无效，应为 2.x 或 3.x".to_owned());
        }
        if is_blank(self.source_dir.as_str()) {
            push_msg(&mut errors, "源代码目录不能为空".to_owned());
        }
        if is_blank(self.target_dir.as_str()) {
            push_msg(&mut errors, "目标目录不能为空".to_owned());
        }
        if !is_known_backend(self.backend.as_str()) {
            push_msg(
                &mut errors,
                concat3(
                    "不支持的后端: ",
                    self.backend.as_str(),
                    "，支持的后端: scala-cli, sbt, gradle, maven",
                ),
            );
        }
        assert(msgs(errors@) =~= package_errors(*self));
        crate::models::dependency::into_report(errors)
    }

    /// The transfer form of the package section.
    pub fn to_dto(&self) -> (r: PackageDto)
        ensures
            r == spec_package_to_dto(*self),
    {
        PackageDto {
            name: self.name.clone(),
            version: self.version.clone(),
            main: crate::models::dependency::clone_opt_string(&self.main),
            scala_version: self.scala_version.clone(),
            source_dir: self.source_dir.clone(),
            target_dir: self.target_dir.clone(),
            test_dir: self.test_dir.clone(),
            backend: self.backend.clone(),
        }
    }

    /// A copy of the package section.
    pub fn duplicate(&self) -> (r: Package)
        ensures
            r == *self,
    {
        Package {
            name: self.name.clone(),
            version: self.version.clone(),
            main: crate::models::dependency::clone_opt_string(&self.main),
            scala_version: self.scala_version.clone(),
            source_dir: self.source_dir.clone(),
            target_dir: self.target_dir.clone(),
            test_dir: self.test_dir.clone(),
            backend: self.backend.clone(),
        }
    }
}

pub open spec fn spec_package_to_dto(p: Package) -> PackageDto {
    PackageDto {
        name: p.name,
        version: p.version,
        main: p.main,
        scala_version: p.scala_version,
        source_dir: p.source_dir,
        target_dir: p.target_dir,
        test_dir: p.test_dir,
        backend: p.backend,
    }
}

pub open spec fn spec_package_from_dto(d: PackageDto) -> Package {
    Package {
        name: d.name,
        version: d.version,
        main: d.main,
        scala_version: d.scala_version,
        source_dir: d.source_dir,
        target_dir: d.target_dir,
        test_dir: d.test_dir,
        backend: d.backend,
    }
}

impl From<PackageDto> for Package {
    fn from(dto: PackageDto) -> (r: Self) {
        Package {
            name: dto.name,
            version: dto.version,
            main: dto.main,
            scala_version: dto.scala_version,
            source_dir: dto.source_dir,
            target_dir: dto.target_dir,
            test_dir: dto.test_dir,
            backend: dto.backend,
        }
    }
}

impl vstd::std_specs::convert::FromSpecImpl<PackageDto> for Package {
    open spec fn obeys_from_spec() -> bool {
        true
    }

    open spec fn from_spec(v: PackageDto) -> Package {
        spec_package_from_dto(v)
    }
}

/// Converting a package section to its transfer form and back gives it back unchanged.
pub proof fn law_package_dto_roundtrip(p: Package)
    ensures
        spec_package_from_dto(spec_package_to_dto(p)) == p,
{
}

// ───────────────────────────── project ─────────────────────────────

/// The message text of a blank dependency name.
pub open spec fn msg_dep_name_empty() -> Seq<char> {
    "依赖名称不能为空"@
}

/// Each dependency entry's errors: a blank name, then the specification's
/// errors labelled with the name.
pub open spec fn project_dep_errors(entries: Seq<(String, DependencySpec)>) -> Seq<Seq<char>>
    decreases entries.len(),
{
    if entries.len() == 0 {
        seq![]
    } else {
        project_dep_errors(entries.drop_last()) + err_if(
            is_blank_seq(entries.last().0@),
            msg_dep_name_empty(),
        ) + crate::models::workspace::labelled(
            "依赖 '"@,
            entries.last().0@,
            "' 验证失败: "@,
            crate::models::dependency::spec_errors(entries.last().1),
        )
    }
}

/// The errors that `Project::validate` reports, in order.
pub open spec fn project_errors(p: Project) -> Seq<Seq<char>> {
    package_errors(p.package) + project_dep_errors(p.dependencies@) + match p.workspace {
        Some(ws) => workspace_errors(ws),
        None => seq![],
    }
}

/// The path of the main source file: `root/source_dir/<main or Main>.scala`.
pub open spec fn main_file_path(p: Project) -> Seq<char> {
    let main_class = match p.package.main {
        Some(m) => m@,
        None => "Main"@,
    };
    path_join(path_join(p.root_path@, p.package.source_dir@), main_class + ".scala"@)
}

/// The entries after inserting the entries of `extra` one after another.
pub open spec fn merged_entries(
    own: Seq<(String, DependencySpec)>,
    extra: Seq<(String, DependencySpec)>,
) -> Seq<(String, DependencySpec)>
    decreases extra.len(),
{
    if extra.len() == 0 {
        own
    } else {
        crate::models::dep_map::insert_entry(merged_entries(own, extra.drop_last()), extra.last())
    }
}

/// The entries of all dependencies, in order: the project's, each replaced in
/// place by a workspace entry of the same name, then the workspace's others.
pub open spec fn all_dependency_entries(p: Project) -> Seq<(String, DependencySpec)> {
    match p.workspace {
        Some(ws) => merged_entries(p.dependencies@, ws.dependencies@),
        None => p.dependencies@,
    }
}

/// All dependencies: the project's, then the workspace's, a workspace entry
/// replacing a project entry of the same name.
pub open spec fn all_dependencies(p: Project) -> Map<Seq<char>, DependencySpec> {
    match p.workspace {
        Some(ws) => p.dependencies.as_map().union_prefer_right(ws.dependencies.as_map()),
        None => p.dependencies.as_map(),
    }
}

impl Project {
    /// The project with its root (and its workspace's root) set to `root_path`.
    pub fn with_root_path(self, root_path: PathWrapper) -> (r: Self)
        ensures
            r.root_path@ == root_path@,
            r.package == self.package,
            r.dependencies == self.dependencies,
            r.workspace is Some <==> self.workspace is Some,
            r.workspace matches Some(w) ==> w.root_path@ == root_path@ && w.members
                == self.workspace->0.members && w.dependencies
                == self.workspace->0.dependencies,
    {
        let mut s = self;
        let ws = s.workspace;
        s.workspace = match ws {
            Some(w) => Some(w.with_root_path(root_path.duplicate())),
            None => None,
        };
        s.root_path = root_path;
        s
    }

    /// The project root.
    pub fn get_root_path(&self) -> (r: &PathWrapper)
        ensures
            r == &self.root_path,
    {
        &self.root_path
    }

    /// The main source file: `root/source_dir/<main or Main>.scala`.
    pub fn get_main_file_path(&self) -> (r: PathWrapper)
        ensures
            r@ == main_file_path(*self),
    {
        let main_file = match &self.package.main {
            Some(m) => concat(m.as_str(), ".scala"),
            None => "Main.scala".to_owned(),
        };
        proof {
            reveal_strlit("Main.scala");
            reveal_strlit("Main");
            reveal_strlit(".scala");
        }
        assert("Main.scala"@ =~= "Main"@ + ".scala"@);
        self.root_path.join(self.package.source_dir.as_str()).join(main_file.as_str())
    }

    /// The source directory, relative to the root.
    pub fn get_source_dir(&self) -> (r: &str)
        ensures
            r@ == self.package.source_dir@,
    {
        self.package.source_dir.as_str()
    }

    /// The source directory under the root.
    pub fn get_source_dir_abs(&self) -> (r: PathWrapper)
        ensures
            r@ == path_join(self.root_path@, self.package.source_dir@),
    {
        self.root_path.join(self.package.source_dir.as_str())
    }

    /// The target directory, relative to the root.
    pub fn get_target_dir(&self) -> (r: &str)
        ensures
            r@ == self.package.target_dir@,
    {
        self.package.target_dir.as_str()
    }

    /// The target directory under the root.
    pub fn get_target_dir_abs(&self) -> (r: PathWrapper)
        ensures
            r@ == path_join(self.root_path@, self.package.target_dir@),
    {
        self.root_path.join(self.package.target_dir.as_str())
    }

    /// The test directory, relative to the root.
    pub fn get_test_dir(&self) -> (r: &str)
        ensures
            r@ == self.package.test_dir@,
    {
        self.package.test_dir.as_str()
    }

    /// The test directory under the root.
    pub fn get_test_dir_abs(&self) -> (r: PathWrapper)
        ensures
            r@ == path_join(self.root_path@, self.package.test_dir@),
    {
        self.root_path.join(self.package.test_dir.as_str())
    }

    /// The build backend.
    pub fn get_backend(&self) -> (r: &str)
        ensures
            r@ == self.package.backend@,
    {
        self.package.backend.as_str()
    }

    /// The project name.
    pub fn get_name(&self) -> (r: &str)
        ensures
            r@ == self.package.name@,
    {
        self.package.name.as_str()
    }

    /// The project version.
    pub fn get_version(&self) -> (r: &str)
        ensures
            r@ == self.package.version@,
    {
        self.package.version.as_str()
    }

    /// The Scala version.
    pub fn get_scala_version(&self) -> (r: &str)
        ensures
            r@ == self.package.scala_version@,
    {
        self.package.scala_version.as_str()
    }

    /// Whether this project is a workspace root.
    pub fn is_workspace_root(&self) -> (b: bool)
        ensures
            b == self.workspace is Some,
    {
        self.workspace.is_some()
    }

    /// The workspace section, if any.
    pub fn get_workspace(&self) -> (r: Option<&Workspace>)
        ensures
            match r {
                Some(w) => self.workspace == Some(*w),
                None => self.workspace is None,
            },
    {
        match &self.workspace {
            Some(w) => Some(w),
            None => None,
        }
    }

    /// All dependencies: the project's, then the workspace's, a workspace
    /// entry replacing a project entry of the same name.
    pub fn get_all_dependencies(&self) -> (r: DependencyMap)
        ensures
            r.as_map() == all_dependencies(*self),
            r@ == all_dependency_entries(*self),
    {
        let mut deps = self.dependencies.duplicate();
        proof {
            assert(deps.as_map() =~= self.dependencies.as_map());
        }
        match &self.workspace {
            Some(ws) => {
                let mut i: usize = 0;
                while i < ws.dependencies.len()
                    invariant
                        i <= ws.dependencies@.len(),
                        self.workspace == Some(*ws),
                        deps.as_map() == self.dependencies.as_map().union_prefer_right(
                            crate::models::dep_map::entries_map(
                                ws.dependencies@.subrange(0, i as int),
                            ),
                        ),
                        deps@ == merged_entries(
                            self.dependencies@,
                            ws.dependencies@.subrange(0, i as int),
                        ),
                    decreases ws.dependencies@.len() - i,
                {
                    let (name, spec) = ws.dependencies.entry(i);
                    proof {
                        lemma_entries_map_prefix_push(ws.dependencies@, i as int);
                    }
                    deps.insert(name.clone(), spec.duplicate());
                    assert(ws.dependencies@.subrange(0, i + 1).drop_last() =~= ws.dependencies@.subrange(
                        0,
                        i as int,
                    ));
                    assert(deps.as_map() =~= self.dependencies.as_map().union_prefer_right(
                        crate::models::dep_map::entries_map(
                            ws.dependencies@.subrange(0, i + 1),
                        ),
                    ));
                    i = i + 1;
                }
                assert(ws.dependencies@.subrange(0, ws.dependencies@.len() as int)
                    =~= ws.dependencies@);
                deps
            },
            None => deps,
        }
    }

    /// The libraries of all dependencies, in the order of `get_all_dependencies`.
    pub fn get_libraries(&self) -> (r: Vec<Library>)
        ensures
            r@.len() == all_dependency_entries(*self).len(),
            forall|i: int|
                0 <= i < r@.len() ==> #[trigger] r@[i] == library_from_spec(
                    all_dependency_entries(*self)[i].0,
                    all_dependency_entries(*self)[i].1,
                ),
            forall|i: int, j: int| 0 <= i < j < r@.len() ==> (#[trigger] r@[i]).name@ != (#[trigger] r@[j]).name@,
            forall|i: int|
                0 <= i < r@.len() ==> all_dependencies(*self).dom().contains((#[trigger] r@[i]).name@)
                    && r@[i].spec == all_dependencies(*self)[r@[i].name@],
            forall|k: Seq<char>|
                #[trigger] all_dependencies(*self).dom().contains(k) ==> exists|i: int|
                    0 <= i < r@.len() && (#[trigger] r@[i]).name@ == k,
    {
        let all = self.get_all_dependencies();
        let count = all.len();
        let mut out: Vec<Library> = Vec::new();
        let mut i: usize = 0;
        while i < count
            invariant
                count == all@.len(),
                i <= all@.len(),
                out@.len() == i,
                forall|j: int|
                    0 <= j < i ==> #[trigger] out@[j] == library_from_spec(all@[j].0, all@[j].1),
            decreases all@.len() - i,
        {
            let (name, spec) = all.entry(i);
            out.push(Library::from_dependency_spec(name.clone(), spec.duplicate()));
            i = i + 1;
        }
        proof {
            let m = all_dependencies(*self);
            assert(m == crate::models::dep_map::entries_map(all@));
            assert forall|i: int| 0 <= i < out@.len() implies m.dom().contains((#[trigger] out@[i]).name@)
                && out@[i].spec == m[out@[i].name@] by {
                crate::models::dep_map::lemma_entries_map_at(all@, i);
            }
            assert forall|k: Seq<char>| #[trigger] m.dom().contains(k) implies exists|i: int|
                0 <= i < out@.len() && (#[trigger] out@[i]).name@ == k by {
                let i = choose|i: int| 0 <= i < all@.len() && all@[i].0@ == k;
                assert(out@[i].name@ == k);
            }
        }
        out
    }

    /// The project root as a directory; `exists` says whether it is on disk.
    pub fn get_directory(&self, exists: bool) -> (r: Directory)
        ensures
            r.path@ == self.root_path@,
            r.exists == exists,
    {
        Directory::from_path(&self.root_path, exists)
    }

    /// The source directory as a directory; `exists` says whether it is on disk.
    pub fn get_source_directory(&self, exists: bool) -> (r: Directory)
        ensures
            r.path@ == path_join(self.root_path@, self.package.source_dir@),
            r.exists == exists,
    {
        Directory::from_path(&self.get_source_dir_abs(), exists)
    }

    /// The target directory as a directory; `exists` says whether it is on disk.
    pub fn get_target_directory(&self, exists: bool) -> (r: Directory)
        ensures
            r.path@ == path_join(self.root_path@, self.package.target_dir@),
            r.exists == exists,
    {
        Directory::from_path(&self.get_target_dir_abs(), exists)
    }

    /// The test directory as a directory; `exists` says whether it is on disk.
    pub fn get_test_directory(&self, exists: bool) -> (r: Directory)
        ensures
            r.path@ == path_join(self.root_path@, self.package.test_dir@),
            r.exists == exists,
    {
        Directory::from_path(&self.get_test_dir_abs(), exists)
    }

    /// Checks the project; the errors are those of `project_errors`.
    pub fn validate(&self) -> (r: Result<(), Vec<String>>)
        ensures
            reports(r, project_errors(*self)),
    {
        let mut errors: Vec<String> = match self.package.validate() {
            Ok(()) => Vec::new(),
            Err(es) => es,
        };
        let ghost after_pkg = msgs(errors@);
        assert(after_pkg == package_errors(self.package));
        let mut i: usize = 0;
        while i < self.dependencies.len()
            invariant
                i <= self.dependencies@.len(),
                msgs(errors@) == after_pkg + project_dep_errors(
                    self.dependencies@.subrange(0, i as int),
                ),
            decreases self.dependencies@.len() - i,
        {
            let (name, spec) = self.dependencies.entry(i);
            assert(self.dependencies@.subrange(0, i + 1).drop_last() =~= self.dependencies@.subrange(
                0,
                i as int,
            ));
            if is_blank(name.as_str()) {
                push_msg(&mut errors, "依赖名称不能为空".to_owned());
            }
            match spec.validate() {
                Ok(()) => {},
                Err(es) => {
                    crate::models::workspace::push_labelled(
                        &mut errors,
                        "依赖 '",
                        name.as_str(),
                        "' 验证失败: ",
                        &es,
                    );
                },
            }
            assert(msgs(errors@) =~= after_pkg + project_dep_errors(
                self.dependencies@.subrange(0, i + 1),
            ));
            i = i + 1;
        }
        assert(self.dependencies@.subrange(0, self.dependencies@.len() as int)
            =~= self.dependencies@);
        match &self.workspace {
            Some(ws) => {
                match ws.validate() {
                    Ok(()) => {},
                    Err(es) => {
                        let ghost before = msgs(errors@);
                        let mut es = es;
                        errors.append(&mut es);
                        assert(msgs(errors@) =~= before + workspace_errors(*ws));
                    },
                }
            },
            None => {},
        }
        assert(msgs(errors@) =~= project_errors(*self));
        crate::models::dependency::into_report(errors)
    }

    /// The transfer form of the manifest.
    pub fn to_dto(&self) -> (r: ProjectDto)
        ensures
            written_as(*self, r),
    {
        ProjectDto {
            package: self.package.to_dto(),
            dependencies: map_to_dto_pairs(&self.dependencies),
            workspace: match &self.workspace {
                Some(ws) => Some(ws.to_dto()),
                None => None,
            },
        }
    }

    /// The project a manifest's transfer form describes, with an empty root path.
    pub fn from_dto(dto: ProjectDto) -> (r: Self)
        ensures
            r.root_path@ == Seq::<char>::empty(),
            read_as(dto, r),
            r.workspace matches Some(w) ==> w.root_path@ == Seq::<char>::empty(),
    {
        Project {
            root_path: PathWrapper::empty(),
            package: Package::from(dto.package),
            dependencies: map_from_dto_pairs(dto.dependencies),
            workspace: match dto.workspace {
                Some(ws) => Some(Workspace::from_dto(ws)),
                None => None,
            },
        }
    }

    /// A copy of the project.
    pub fn duplicate(&self) -> (r: Project)
        ensures
            r.root_path@ == self.root_path@,
            r.package == self.package,
            r.dependencies@ == self.dependencies@,
            r.workspace is Some <==> self.workspace is Some,
            r.workspace matches Some(w) ==> w.root_path@ == self.workspace->0.root_path@
                && w.members@ == self.workspace->0.members@ && w.dependencies@
                == self.workspace->0.dependencies@,
    {
        Project {
            root_path: self.root_path.duplicate(),
            package: self.package.duplicate(),
            dependencies: self.dependencies.duplicate(),
            workspace: match &self.workspace {
                Some(ws) => Some(ws.duplicate()),
                None => None,
            },
        }
    }
}

/// One more entry on the right of a prefix adds it to the map built from the prefix.
proof fn lemma_entries_map_prefix_push(entries: Seq<(String, DependencySpec)>, i: int)
    requires
        crate::models::dep_map::names_distinct(entries),
        0 <= i < entries.len(),
    ensures
        crate::models::dep_map::entries_map(entries.subrange(0, i + 1))
            == crate::models::dep_map::entries_map(entries.subrange(0, i)).insert(
            entries[i].0@,
            entries[i].1,
        ),
{
    let pre = entries.subrange(0, i);
    assert(entries.subrange(0, i + 1) =~= pre.push(entries[i]));
    crate::models::dep_map::lemma_entries_map_push(pre, entries[i].0, entries[i].1);
}

impl From<ProjectDto> for Project {
    /// What `Project::from_dto` reads from the transfer form.
    fn from(dto: ProjectDto) -> (r: Self)
        ensures
            r.root_path@ == Seq::<char>::empty(),
            read_as(dto, r),
            r.workspace matches Some(w) ==> w.root_path@ == Seq::<char>::empty(),
    {
        Project::from_dto(dto)
    }
}

impl vstd::std_specs::convert::FromSpecImpl<ProjectDto> for Project {
    open spec fn obeys_from_spec() -> bool {
        false
    }

    open spec fn from_spec(v: ProjectDto) -> Project {
        arbitrary()
    }
}

/// `dto` is the transfer form `Project::to_dto` writes for `p`.
pub open spec fn written_as(p: Project, dto: ProjectDto) -> bool {
    &&& dto.package == spec_package_to_dto(p.package)
    &&& dto_pairs_match(dto.dependencies@, p.dependencies@)
    &&& (dto.workspace is Some <==> p.workspace is Some)
    &&& (dto.workspace matches Some(w) ==> w.members@ == p.workspace->0.members@
        && dto_pairs_match(w.dependencies@, p.workspace->0.dependencies@))
}

/// `q` has the contents `Project::from_dto` reads from `dto` (the root paths aside).
pub open spec fn read_as(dto: ProjectDto, q: Project) -> bool {
    &&& q.package == spec_package_from_dto(dto.package)
    &&& q.dependencies.as_map() == pairs_map(dto.dependencies@)
    &&& (q.workspace is Some <==> dto.workspace is Some)
    &&& (q.workspace matches Some(w) ==> w.members == dto.workspace->0.members
        && w.dependencies.as_map() == pairs_map(dto.workspace->0.dependencies@))
}

/// A project written out to its transfer form and read back has the same
/// package section, the same dependency table, and a workspace section (if
/// any) with the same members and dependencies; only the root paths, which
/// the transfer form does not hold, are not carried over.
pub proof fn law_project_dto_roundtrip(p: Project, dto: ProjectDto, q: Project)
    requires
        names_distinct(p.dependencies@),
        p.workspace matches Some(w) ==> names_distinct(w.dependencies@),
        written_as(p, dto),
        read_as(dto, q),
    ensures
        q.package == p.package,
        q.dependencies.as_map() == p.dependencies.as_map(),
        q.workspace is Some <==> p.workspace is Some,
        q.workspace matches Some(w) ==> w.members@ == p.workspace->0.members@
            && w.dependencies.as_map() == p.workspace->0.dependencies.as_map(),
{
    law_package_dto_roundtrip(p.package);
    law_dependency_table_roundtrip(dto.dependencies@, p.dependencies@);
    if p.workspace is Some {
        law_dependency_table_roundtrip(
            dto.workspace->0.dependencies@,
            p.workspace->0.dependencies@,
        );
    }
}

/// The dependency entries give no error exactly when every name is not blank
/// and every specification passes validation.
proof fn lemma_dep_errors_empty(entries: Seq<(String, DependencySpec)>)
    ensures
        project_dep_errors(entries).len() == 0 <==> forall|i: int|
            0 <= i < entries.len() ==> !is_blank_seq(#[trigger] entries[i].0@)
                && crate::models::dependency::spec_errors(entries[i].1).len() == 0,
    decreases entries.len(),
{
    if entries.len() > 0 {
        let pre = entries.drop_last();
        lemma_dep_errors_empty(pre);
        let last = entries.last();
        assert(entries[entries.len() - 1] == last);
        assert forall|i: int| 0 <= i < pre.len() implies #[trigger] pre[i] == entries[i] by {}
        let lab = crate::models::workspace::labelled(
            "依赖 '"@,
            last.0@,
            "' 验证失败: "@,
            crate::models::dependency::spec_errors(last.1),
        );
        assert(lab.len() == crate::models::dependency::spec_errors(last.1).len());
        assert(project_dep_errors(entries) == project_dep_errors(pre) + err_if(
            is_blank_seq(last.0@),
            msg_dep_name_empty(),
        ) + lab);
        if project_dep_errors(entries).len() == 0 {
            assert forall|i: int| 0 <= i < entries.len() implies !is_blank_seq(#[trigger] entries[i].0@)
                && crate::models::dependency::spec_errors(entries[i].1).len() == 0 by {
                if i < pre.len() {
                    assert(pre[i] == entries[i]);
                    assert(!is_blank_seq(pre[i].0@));
                } else {
                    assert(!is_blank_seq(last.0@));
                }
            }
        }
        if forall|i: int|
            0 <= i < entries.len() ==> !is_blank_seq(#[trigger] entries[i].0@)
                && crate::models::dependency::spec_errors(entries[i].1).len() == 0 {
            assert forall|i: int| 0 <= i < pre.len() implies !is_blank_seq(#[trigger] pre[i].0@)
                && crate::models::dependency::spec_errors(pre[i].1).len() == 0 by {
                assert(pre[i] == entries[i]);
            }
            assert(!is_blank_seq(entries[entries.len() - 1].0@));
        }
    }
}

/// A project passes validation exactly when its package section does, every
/// dependency has a name that is not blank and a specification that passes,
/// and its workspace section, if any, passes.
pub proof fn law_project_valid_by_parts(p: Project)
    ensures
        project_errors(p).len() == 0 <==> {
            &&& package_errors(p.package).len() == 0
            &&& forall|i: int|
                0 <= i < p.dependencies@.len() ==> !is_blank_seq(#[trigger] p.dependencies@[i].0@)
                    && crate::models::dependency::spec_errors(p.dependencies@[i].1).len() == 0
            &&& p.workspace matches Some(ws) ==> workspace_errors(ws).len() == 0
        },
{
    lemma_dep_errors_empty(p.dependencies@);
}

/// A package section passes validation exactly when its name, version, source
/// directory and target directory are not blank, its Scala version starts with
/// `2.` or `3.`, and its backend is one of `scala-cli`, `sbt`, `gradle` and
/// `maven`.
pub proof fn law_package_valid_exactly(p: Package)
    ensures
        package_errors(p).len() == 0 <==> {
            &&& !is_blank_seq(p.name@)
            &&& !is_blank_seq(p.version@)
            &&& !is_blank_seq(p.source_dir@)
            &&& !is_blank_seq(p.target_dir@)
            &&& (starts_with_seq(p.scala_version@, "2."@) || starts_with_seq(p.scala_version@, "3."@))
            &&& (p.backend@ == "scala-cli"@ || p.backend@ == "sbt"@ || p.backend@ == "gradle"@
                || p.backend@ == "maven"@)
        },
{
}

} // verus!
