//! The command line: the commands, how the parsed arguments map onto them,
//! and the small decisions the command handlers make about workspaces.

use crate::models::project::{main_file_path, Project};
use crate::models::workspace::clone_strings;
use crate::text::{concat3, eq_str, views};
use crate::toolkit::os::{comp_text, components, PathComponent, PathWrapper};
use vstd::prelude::*;

verus! {

/// The subcommands of `workspace`.
#[derive(Debug, Clone)]
pub enum WorkspaceCommands {
    Add { paths: Vec<String> },
}

/// The commands of the tool.
#[derive(Debug, Clone)]
pub enum Commands {
    New { name: String },
    Init,
    Build,
    Run { file: Option<PathWrapper>, lib: bool },
    Add { deps: Vec<String> },
    Test { file: Option<PathWrapper> },
    Workspace { subcommand: WorkspaceCommands },
    Jsp { name: String },
}

/// What the argument parser matched: the subcommand's name, the name of a
/// nested subcommand, the positional values of the (innermost) subcommand in
/// order, and whether `--lib` was given.
#[derive(Debug, Clone)]
pub struct MatchedArgs {
    pub subcommand: Option<String>,
    pub nested: Option<String>,
    pub values: Vec<String>,
    pub lib: bool,
}

/// The text of an optional string.
pub open spec fn opt_view(o: Option<String>) -> Option<Seq<char>> {
    match o {
        Some(s) => Some(s@),
        None => None,
    }
}

/// The optional file argument: the first value, if there is one.
pub open spec fn file_arg(file: Option<PathWrapper>, values: Seq<Seq<char>>) -> bool {
    match file {
        Some(f) => values.len() > 0 && f@ == values[0],
        None => values.len() == 0,
    }
}

/// The command the matched arguments name, if any.
pub open spec fn parsed_as(m: MatchedArgs, r: Option<Commands>) -> bool {
    let sub = opt_view(m.subcommand);
    let values = views(m.values@);
    if sub == Some("new"@) {
        r matches Some(Commands::New { name }) && name@ == values[0]
    } else if sub == Some("init"@) {
        r matches Some(Commands::Init)
    } else if sub == Some("build"@) {
        r matches Some(Commands::Build)
    } else if sub == Some("run"@) {
        r matches Some(Commands::Run { file, lib }) && lib == m.lib && file_arg(file, values)
    } else if sub == Some("add"@) {
        r matches Some(Commands::Add { deps }) && views(deps@) == values
    } else if sub == Some("test"@) {
        r matches Some(Commands::Test { file }) && file_arg(file, values)
    } else if sub == Some("workspace"@) {
        if opt_view(m.nested) == Some("add"@) {
            r matches Some(
                Commands::Workspace { subcommand: WorkspaceCommands::Add { paths } },
            ) && views(paths@) == values
        } else {
            r is None
        }
    } else if sub == Some("jsp"@) {
        r matches Some(Commands::Jsp { name }) && name@ == values[0]
    } else {
        r is None
    }
}

fn first_file(values: &Vec<String>) -> (r: Option<PathWrapper>)
    ensures
        file_arg(r, views(values@)),
{
    if values.len() == 0 {
        None
    } else {
        Some(PathWrapper::new(values[0].as_str()))
    }
}

fn is_named(o: &Option<String>, name: &str) -> (b: bool)
    ensures
        b == (opt_view(*o) == Some(name@)),
{
    match o {
        Some(s) => eq_str(s.as_str(), name),
        None => false,
    }
}

/// The command the matched arguments name: `new` and `jsp` take the name,
/// `run` and `test` an optional file, `add` the dependencies, `workspace add`
/// the member paths; anything else names no command.
pub fn parse_command_from_matches(m: &MatchedArgs) -> (r: Option<Commands>)
    requires
        opt_view(m.subcommand) == Some("new"@) || opt_view(m.subcommand) == Some("jsp"@)
            ==> m.values@.len() > 0,
    ensures
        parsed_as(*m, r),
{
    let sub = &m.subcommand;
    if is_named(sub, "new") {
        Some(Commands::New { name: m.values[0].clone() })
    } else if is_named(sub, "init") {
        Some(Commands::Init)
    } else if is_named(sub, "build") {
        Some(Commands::Build)
    } else if is_named(sub, "run") {
        Some(Commands::Run { file: first_file(&m.values), lib: m.lib })
    } else if is_named(sub, "add") {
        let deps = clone_strings(&m.values);
        Some(Commands::Add { deps })
    } else if is_named(sub, "test") {
        Some(Commands::Test { file: first_file(&m.values) })
    } else if is_named(sub, "workspace") {
        if is_named(&m.nested, "add") {
            let paths = clone_strings(&m.values);
            Some(Commands::Workspace { subcommand: WorkspaceCommands::Add { paths } })
        } else {
            None
        }
    } else if is_named(sub, "jsp") {
        Some(Commands::Jsp { name: m.values[0].clone() })
    } else {
        None
    }
}

// ───────────────────────────── workspace decisions ─────────────────────────────

/// The text of the first component of a path, if it has one.
pub open spec fn first_component(p: Seq<char>) -> Option<Seq<char>> {
    if components(p).len() > 0 {
        Some(comp_text(components(p)[0]))
    } else {
        None
    }
}

/// The name of the member a directory lies in: the first component of its
/// path relative to the workspace root.
pub fn member_name_from(relative: &PathWrapper) -> (r: Option<String>)
    ensures
        opt_view(r) == first_component(relative@),
{
    let cs = relative.components();
    if cs.len() == 0 {
        return None;
    }
    proof {
        reveal_strlit("/");
        reveal_strlit(".");
        reveal_strlit("..");
    }
    let t = match &cs[0] {
        PathComponent::RootDir => {
            assert("/"@ =~= seq!['/']);
            "/".to_owned()
        },
        PathComponent::CurDir => {
            assert("."@ =~= seq!['.']);
            ".".to_owned()
        },
        PathComponent::ParentDir => {
            assert(".."@ =~= seq!['.', '.']);
            "..".to_owned()
        },
        PathComponent::Normal(x) => x.clone(),
    };
    Some(t)
}

/// The first member whose package has the given name.
pub fn find_member(members: &Vec<Project>, name: &str) -> (r: Option<usize>)
    ensures
        r matches Some(i) ==> i < members@.len() && members@[i as int].package.name@ == name@
            && forall|j: int| 0 <= j < i ==> members@[j].package.name@ != name@,
        r is None ==> forall|j: int| 0 <= j < members@.len() ==> members@[j].package.name@ != name@,
{
    let mut i: usize = 0;
    while i < members.len()
        invariant
            i <= members@.len(),
            forall|j: int| 0 <= j < i ==> members@[j].package.name@ != name@,
        decreases members@.len() - i,
    {
        if eq_str(members[i].package.name.as_str(), name) {
            return Some(i);
        }
        i = i + 1;
    }
    None
}

/// Where a member's build output goes in a workspace build: the workspace's
/// target directory, then the member's name.
pub fn workspace_target_dir(root_target_dir: &str, member_name: &str) -> (r: String)
    ensures
        r@ == root_target_dir@ + "/"@ + member_name@,
{
    concat3(root_target_dir, "/", member_name)
}

// ───────────────────────────── dispatch ─────────────────────────────

/// Who handles an invocation.
#[derive(Debug, Clone, Copy, PartialEq, Eq, Structural)]
pub enum Dispatch {
    /// The plugin at this index among the registered ones.
    Plugin(usize),
    /// The built-in command that was parsed.
    Builtin,
    /// No command: the default behaviour.
    Default,
}

/// Who handles an invocation: the first registered plugin named like the
/// subcommand; else the built-in command, if one was parsed; else the default.
pub fn dispatch(plugin_names: &Vec<&str>, subcommand: Option<&str>, has_command: bool) -> (r: Dispatch)
    ensures
        r matches Dispatch::Plugin(i) ==> subcommand is Some && i < plugin_names@.len()
            && plugin_names@[i as int]@ == subcommand->0@ && forall|j: int|
            0 <= j < i ==> plugin_names@[j]@ != subcommand->0@,
        !(r is Plugin) ==> (subcommand matches Some(s) ==> forall|j: int|
            0 <= j < plugin_names@.len() ==> plugin_names@[j]@ != s@),
        r is Builtin ==> has_command,
        r is Default ==> !has_command,
{
    match subcommand {
        Some(s) => {
            let mut i: usize = 0;
            while i < plugin_names.len()
                invariant
                    subcommand == Some(s),
                    i <= plugin_names@.len(),
                    forall|j: int| 0 <= j < i ==> plugin_names@[j]@ != s@,
                decreases plugin_names@.len() - i,
            {
                if eq_str(plugin_names[i], s) {
                    return Dispatch::Plugin(i);
                }
                i = i + 1;
            }
        },
        None => {},
    }
    if has_command {
        Dispatch::Builtin
    } else {
        Dispatch::Default
    }
}

// ───────────────────────────── what a command acts on ─────────────────────────────

/// What `build` builds.
#[derive(Debug, Clone, Copy, PartialEq, Eq, Structural)]
pub enum BuildScope {
    /// Every member of the workspace whose root is the working directory.
    AllMembers,
    /// The member of the enclosing workspace the working directory lies in.
    CurrentMember,
    /// The project in the working directory alone.
    Standalone,
}

/// What `build` builds: all members at a workspace root; the current member
/// inside a workspace; else the project alone.
pub fn build_scope(is_workspace_root: bool, in_workspace: bool) -> (r: BuildScope)
    ensures
        is_workspace_root ==> r == BuildScope::AllMembers,
        !is_workspace_root && in_workspace ==> r == BuildScope::CurrentMember,
        !is_workspace_root && !in_workspace ==> r == BuildScope::Standalone,
{
    if is_workspace_root {
        BuildScope::AllMembers
    } else if in_workspace {
        BuildScope::CurrentMember
    } else {
        BuildScope::Standalone
    }
}

/// The file `run` runs: the one given, else the project's main file.
pub fn run_target(file: &Option<PathWrapper>, project: &Project) -> (r: PathWrapper)
    ensures
        r@ == match file {
            Some(f) => f@,
            None => main_file_path(*project),
        },
{
    match file {
        Some(f) => f.duplicate(),
        None => project.get_main_file_path(),
    }
}

/// What `test` runs: the file or directory given, else the project's test directory.
pub fn test_target(file: &Option<PathWrapper>, project: &Project) -> (r: PathWrapper)
    ensures
        r@ == match file {
            Some(f) => f@,
            None => project.package.test_dir@,
        },
{
    match file {
        Some(f) => f.duplicate(),
        None => PathWrapper::new(project.package.test_dir.as_str()),
    }
}

/// What the IDE setup of a workspace takes from its members: each member's
/// name with its source directory, in order, and the first member's backend
/// (none without members).
pub fn workspace_sources(members: &Vec<Project>) -> (r: (Vec<(String, String)>, Option<String>))
    ensures
        r.0@.len() == members@.len(),
        forall|i: int|
            0 <= i < members@.len() ==> (#[trigger] r.0@[i]).0@ == members@[i].package.name@ && r.0@[i].1@
                == members@[i].package.source_dir@,
        r.1 is None <==> members@.len() == 0,
        r.1 matches Some(b) ==> b@ == members@[0].package.backend@,
{
    let mut dirs: Vec<(String, String)> = Vec::new();
    let mut i: usize = 0;
    while i < members.len()
        invariant
            i <= members@.len(),
            dirs@.len() == i,
            forall|j: int|
                0 <= j < i ==> (#[trigger] dirs@[j]).0@ == members@[j].package.name@ && dirs@[j].1@
                    == members@[j].package.source_dir@,
        decreases members@.len() - i,
    {
        let m = &members[i];
        dirs.push((m.get_name().to_owned(), m.get_source_dir().to_owned()));
        i = i + 1;
    }
    let backend = if members.len() > 0 {
        Some(members[0].get_backend().to_owned())
    } else {
        None
    };
    (dirs, backend)
}

} // verus!
