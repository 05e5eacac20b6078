//! Running single files and building projects: the decisions and command
//! lines, computed from the project layout and the dependencies.

use crate::deps::manager::{build_args, ScalaCliDependencyManager};
use crate::deps::{coord_of, dep_views, DepView, Dependency};
use crate::text::{concat3, contains_seq, contains_str, eq_str, trim, trim_seq, views};
use crate::toolkit::os::{comp_text, components, path_join, path_strip_prefix, PathWrapper};
use vstd::prelude::*;

verus! {

/// A Scala source with `def main(`, `extends App` or `@main`.
pub open spec fn has_main(content: Seq<char>) -> bool {
    contains_seq(content, "def main("@) || contains_seq(content, "extends App"@) || contains_seq(
        content,
        "@main"@,
    )
}

/// Whether a Scala source defines an entry point (`def main(`, `extends App` or `@main`).
pub fn has_main_method(content: &str) -> (b: bool)
    ensures
        b == has_main(content@),
{
    contains_str(content, "def main(") || contains_str(content, "extends App") || contains_str(
        content,
        "@main",
    )
}

/// How a file is run: as an application, or compiled only.
#[derive(Debug, Clone, Copy, PartialEq, Eq, Structural)]
pub enum RunMode {
    App,
    Lib,
}

/// The outcome of running a file.
#[derive(Debug, Clone)]
pub struct RunResult {
    pub mode: RunMode,
    pub output: String,
}

/// A file is compiled only when library mode is forced or it has no entry point.
pub fn run_mode(force_lib: bool, has_main: bool) -> (m: RunMode)
    ensures
        m == (if force_lib || !has_main {
            RunMode::Lib
        } else {
            RunMode::App
        }),
{
    if force_lib || !has_main {
        RunMode::Lib
    } else {
        RunMode::App
    }
}

/// The scala-cli subcommand for a mode: `run` or `compile`.
pub open spec fn mode_command(m: RunMode) -> Seq<char> {
    match m {
        RunMode::App => "run"@,
        RunMode::Lib => "compile"@,
    }
}

/// The scala-cli arguments that run or compile one file.
pub fn scala_file_args(mode: RunMode, abs_file: &str) -> (r: Vec<String>)
    ensures
        views(r@) == seq![mode_command(mode), abs_file@],
{
    let mut args: Vec<String> = Vec::new();
    match mode {
        RunMode::App => args.push("run".to_owned()),
        RunMode::Lib => args.push("compile".to_owned()),
    }
    args.push(abs_file.to_owned());
    assert(views(args@) =~= seq![mode_command(mode), abs_file@]);
    args
}

/// The scala-cli arguments that run (or, without an entry point, compile)
/// one file with the dependencies.
pub fn single_file_args(
    manager: &ScalaCliDependencyManager,
    abs_file: &str,
    has_main: bool,
    deps: &Vec<Dependency>,
) -> (r: Vec<String>)
    ensures
        views(r@) == seq![
            mode_command(
                if has_main {
                    RunMode::App
                } else {
                    RunMode::Lib
                },
            ),
            abs_file@,
        ] + build_args(
            manager.project_dir(),
            dep_views(deps@),
        ),
{
    let mut args = scala_file_args(run_mode(false, has_main), abs_file);
    let mut extra = manager.get_run_args(deps);
    let ghost a = views(args@);
    let ghost b = views(extra@);
    args.append(&mut extra);
    assert(views(args@) =~= a + b);
    args
}

/// The output shown for a run: standard output, then standard error on a
/// new line when there is any.
pub open spec fn combined_output(stdout: Seq<char>, stderr: Seq<char>) -> Seq<char> {
    if stderr.len() > 0 {
        stdout + "\n"@ + stderr
    } else {
        stdout
    }
}

/// Joins the outputs of a run.
pub fn combine_output(stdout: &str, stderr: &str) -> (r: String)
    ensures
        r@ == combined_output(stdout@, stderr@),
{
    if stderr.unicode_len() > 0 {
        concat3(stdout, "\n", stderr)
    } else {
        stdout.to_owned()
    }
}

/// The result of a successful run: the mode and the trimmed combined output.
pub fn run_result(mode: RunMode, stdout: &str, stderr: &str) -> (r: RunResult)
    ensures
        r.mode == mode,
        r.output@ == trim_seq(combined_output(stdout@, stderr@)),
{
    let full = combine_output(stdout, stderr);
    RunResult { mode, output: trim(full.as_str()) }
}

/// What running one file reports: the trimmed combined output in the mode it
/// ran in, or, when scala-cli failed, the failure with the combined output.
pub fn run_file_outcome(mode: RunMode, success: bool, stdout: &str, stderr: &str) -> (r: Result<
    RunResult,
    String,
>)
    ensures
        success ==> (r matches Ok(res) && res.mode == mode && res.output@ == trim_seq(
            combined_output(stdout@, stderr@),
        )),
        !success ==> (r matches Err(e) && e@ == "scala-cli failed: "@ + combined_output(
            stdout@,
            stderr@,
        )),
{
    if success {
        Ok(run_result(mode, stdout, stderr))
    } else {
        let full = combine_output(stdout, stderr);
        Err(crate::text::concat("scala-cli failed: ", full.as_str()))
    }
}

/// What running a file with dependencies reports: its standard output, or,
/// when scala-cli failed, the failure with its standard error.
pub fn deps_run_outcome(success: bool, stdout: &str, stderr: &str) -> (r: Result<String, String>)
    ensures
        success ==> (r matches Ok(s) && s@ == stdout@),
        !success ==> (r matches Err(e) && e@ == "Failed: "@ + stderr@),
{
    if success {
        Ok(stdout.to_owned())
    } else {
        Err(crate::text::concat("Failed: ", stderr))
    }
}

/// What a scala-cli build reports: success, or the failure with its standard error.
pub fn build_outcome(success: bool, stderr: &str) -> (r: Result<(), String>)
    ensures
        success ==> r is Ok,
        !success ==> (r matches Err(e) && e@ == "Build failed: "@ + stderr@),
{
    if success {
        Ok(())
    } else {
        Err(crate::text::concat("Build failed: ", stderr))
    }
}

// ───────────────────────────── building ─────────────────────────────

/// A build tool invocation.
#[derive(Debug, Clone)]
pub enum BuildInvocation {
    /// scala-cli with these arguments.
    ScalaCli(Vec<String>),
    /// Another build tool with these arguments, run in the project directory.
    Tool { tool: String, args: Vec<String> },
}

/// The `--dependency <coordinate>` pairs of a build.
pub open spec fn coord_args(ds: Seq<DepView>) -> Seq<Seq<char>>
    decreases ds.len(),
{
    if ds.len() == 0 {
        seq![]
    } else {
        coord_args(ds.drop_last()) + seq!["--dependency"@, coord_of(ds.last())]
    }
}

/// The `--dependency <coordinate>` pairs of a build.
pub fn dependency_coord_args(deps: &Vec<Dependency>) -> (r: Vec<String>)
    ensures
        views(r@) == coord_args(dep_views(deps@)),
{
    let mut args: Vec<String> = Vec::new();
    let mut i: usize = 0;
    while i < deps.len()
        invariant
            i <= deps@.len(),
            views(args@) == coord_args(dep_views(deps@).subrange(0, i as int)),
        decreases deps@.len() - i,
    {
        let ghost before = views(args@);
        assert(dep_views(deps@).subrange(0, i + 1).drop_last() =~= dep_views(deps@).subrange(
            0,
            i as int,
        ));
        args.push("--dependency".to_owned());
        args.push(deps[i].coord());
        assert(views(args@) =~= before + seq!["--dependency"@, coord_of(deps@[i as int].view())]);
        i = i + 1;
    }
    assert(dep_views(deps@).subrange(0, deps@.len() as int) =~= dep_views(deps@));
    args
}

/// Where a build writes: the target directory under the workspace root when
/// there is one, else under the project directory.
pub open spec fn target_path(proj: Seq<char>, target_dir: Seq<char>, ws: Option<Seq<char>>) -> Seq<char> {
    match ws {
        Some(w) => path_join(w, target_dir),
        None => path_join(proj, target_dir),
    }
}

/// Where a build writes.
pub fn build_target_path(proj_dir: &PathWrapper, target_dir: &str, workspace_root: Option<&PathWrapper>) -> (r:
    PathWrapper)
    ensures
        r@ == target_path(
            proj_dir@,
            target_dir@,
            match workspace_root {
                Some(w) => Some(w@),
                None => None,
            },
        ),
{
    match workspace_root {
        Some(w) => w.join(target_dir),
        None => proj_dir.join(target_dir),
    }
}

/// The scala-cli arguments of a build.
pub open spec fn scala_cli_build_args(
    proj: Seq<char>,
    ds: Seq<DepView>,
    source_dir: Seq<char>,
    target_dir: Seq<char>,
    ws: Option<Seq<char>>,
    is_workspace_build: bool,
) -> Seq<Seq<char>> {
    let workspace_dir = match ws {
        Some(w) => w,
        None => proj,
    };
    seq!["compile"@] + (if is_workspace_build {
        seq!["--workspace"@, workspace_dir]
    } else {
        seq![]
    }) + seq!["-d"@, target_path(proj, target_dir, ws), path_join(proj, source_dir)] + coord_args(
        ds,
    )
}

/// The invocation a build uses for a backend, or the refusal of an unknown one.
pub open spec fn build_invocation_ok(
    r: Result<BuildInvocation, String>,
    proj: Seq<char>,
    ds: Seq<DepView>,
    source_dir: Seq<char>,
    target_dir: Seq<char>,
    backend: Seq<char>,
    ws: Option<Seq<char>>,
    is_workspace_build: bool,
) -> bool {
    if backend == "scala-cli"@ {
        r matches Ok(BuildInvocation::ScalaCli(args)) && views(args@) == scala_cli_build_args(
            proj,
            ds,
            source_dir,
            target_dir,
            ws,
            is_workspace_build,
        )
    } else if backend == "sbt"@ {
        r matches Ok(BuildInvocation::Tool { tool, args }) && tool@ == "sbt"@ && views(args@)
            == seq!["compile"@]
    } else if backend == "maven"@ {
        r matches Ok(BuildInvocation::Tool { tool, args }) && tool@ == "mvn"@ && views(args@)
            == seq!["compile"@]
    } else if backend == "gradle"@ {
        r matches Ok(BuildInvocation::Tool { tool, args }) && tool@ == "gradle"@ && views(args@)
            == seq!["build"@]
    } else {
        r matches Err(m) && m@ == "Unsupported backend: "@ + backend
    }
}

fn tool(name: &str, arg: &str) -> (r: BuildInvocation)
    ensures
        r matches BuildInvocation::Tool { tool, args } && tool@ == name@ && views(args@) == seq![arg@],
{
    let mut args: Vec<String> = Vec::new();
    args.push(arg.to_owned());
    assert(views(args@) =~= seq![arg@]);
    BuildInvocation::Tool { tool: name.to_owned(), args }
}

/// How a project is built with `backend`.
pub fn build_invocation(
    proj_dir: &PathWrapper,
    deps: &Vec<Dependency>,
    source_dir: &str,
    target_dir: &str,
    backend: &str,
    workspace_root: Option<&PathWrapper>,
    is_workspace_build: bool,
) -> (r: Result<BuildInvocation, String>)
    ensures
        build_invocation_ok(
            r,
            proj_dir@,
            dep_views(deps@),
            source_dir@,
            target_dir@,
            backend@,
            match workspace_root {
                Some(w) => Some(w@),
                None => None,
            },
            is_workspace_build,
        ),
{
    proof {
        reveal_strlit("scala-cli");
        reveal_strlit("sbt");
        reveal_strlit("maven");
        reveal_strlit("gradle");
    }
    if eq_str(backend, "scala-cli") {
        let ghost ws = match workspace_root {
            Some(w) => Some(w@),
            None => None,
        };
        let mut args: Vec<String> = Vec::new();
        args.push("compile".to_owned());
        if is_workspace_build {
            args.push("--workspace".to_owned());
            match workspace_root {
                Some(w) => args.push(w.to_string_lossy()),
                None => args.push(proj_dir.to_string_lossy()),
            }
        }
        args.push("-d".to_owned());
        args.push(build_target_path(proj_dir, target_dir, workspace_root).to_string_lossy());
        args.push(proj_dir.join(source_dir).to_string_lossy());
        let ghost a = views(args@);
        assert(a =~= seq!["compile"@] + (if is_workspace_build {
            seq!["--workspace"@, match ws {
                Some(w) => w,
                None => proj_dir@,
            }]
        } else {
            seq![]
        }) + seq!["-d"@, target_path(proj_dir@, target_dir@, ws), path_join(proj_dir@, source_dir@)]);
        let mut extra = dependency_coord_args(deps);
        let ghost b = views(extra@);
        args.append(&mut extra);
        assert(views(args@) =~= a + b);
        assert(views(args@) == scala_cli_build_args(proj_dir@, dep_views(deps@), source_dir@, target_dir@, ws, is_workspace_build));
        Ok(BuildInvocation::ScalaCli(args))
    } else if eq_str(backend, "sbt") {
        Ok(tool("sbt", "compile"))
    } else if eq_str(backend, "maven") {
        Ok(tool("mvn", "compile"))
    } else if eq_str(backend, "gradle") {
        Ok(tool("gradle", "build"))
    } else {
        Err(crate::text::concat("Unsupported backend: ", backend))
    }
}

/// How a project's main file runs with a backend other than scala-cli, or
/// the refusal of one that cannot run it.
pub fn run_invocation(backend: &str) -> (r: Result<BuildInvocation, String>)
    ensures
        if backend@ == "sbt"@ {
            r matches Ok(BuildInvocation::Tool { tool, args }) && tool@ == "sbt"@ && views(args@)
                == seq!["run"@]
        } else if backend@ == "maven"@ {
            r matches Ok(BuildInvocation::Tool { tool, args }) && tool@ == "mvn"@ && views(args@)
                == seq!["exec:java"@]
        } else if backend@ == "gradle"@ {
            r matches Ok(BuildInvocation::Tool { tool, args }) && tool@ == "gradle"@ && views(args@)
                == seq!["run"@]
        } else {
            r matches Err(m) && m@ == "Backend '"@ + backend@ + "' not supported for running"@
        },
{
    proof {
        reveal_strlit("sbt");
        reveal_strlit("maven");
        reveal_strlit("gradle");
    }
    if eq_str(backend, "sbt") {
        Ok(tool("sbt", "run"))
    } else if eq_str(backend, "maven") {
        Ok(tool("mvn", "exec:java"))
    } else if eq_str(backend, "gradle") {
        Ok(tool("gradle", "run"))
    } else {
        Err(concat3("Backend '", backend, "' not supported for running"))
    }
}

/// The member directory name of a project under a workspace root: the text
/// of the project path relative to the root.
pub open spec fn member_dir_name(proj: Seq<char>, ws: Seq<char>) -> Seq<char> {
    path_strip_prefix(proj, ws)->0
}

/// The `(member, source directory)` pairs a build hands to the BSP setup: the
/// project's own source directory, named by its place under the workspace
/// root when there is one.
pub fn bsp_source_dirs(proj_dir: &PathWrapper, source_dir: &str, workspace_root: Option<&PathWrapper>) -> (r:
    Vec<(String, String)>)
    requires
        workspace_root matches Some(w) ==> crate::toolkit::os::path_starts_with(proj_dir@, w@),
    ensures
        r@.len() == 1,
        r@[0].1@ == source_dir@,
        r@[0].0@ == match workspace_root {
            Some(w) => member_dir_name(proj_dir@, w@),
            None => Seq::<char>::empty(),
        },
{
    let member = match workspace_root {
        Some(w) => proj_dir.relative_to(w).to_string_lossy(),
        None => String::new(),
    };
    let mut v: Vec<(String, String)> = Vec::new();
    v.push((member, source_dir.to_owned()));
    v
}

/// The build artifacts scala-cli leaves behind that are removed after a run:
/// `.bsp` and `.scala-build` under the source path, and `scala-cli.json` in
/// the project directory.
pub fn artifact_paths(proj_dir: &PathWrapper, source_path: &PathWrapper) -> (r: Vec<PathWrapper>)
    ensures
        r@.len() == 3,
        r@[0]@ == path_join(source_path@, ".bsp"@),
        r@[1]@ == path_join(source_path@, ".scala-build"@),
        r@[2]@ == path_join(proj_dir@, "scala-cli.json"@),
{
    let mut v: Vec<PathWrapper> = Vec::new();
    v.push(source_path.join(".bsp"));
    v.push(source_path.join(".scala-build"));
    v.push(proj_dir.join("scala-cli.json"));
    v
}

/// The scala-cli arguments of `sinter test`: the test target, then the dependencies.
pub fn test_args(abs_target: &str, deps: &Vec<Dependency>) -> (r: Vec<String>)
    ensures
        views(r@) == seq!["test"@, abs_target@] + coord_args(dep_views(deps@)),
{
    let mut args: Vec<String> = Vec::new();
    args.push("test".to_owned());
    args.push(abs_target.to_owned());
    let ghost a = views(args@);
    assert(a =~= seq!["test"@, abs_target@]);
    let mut extra = dependency_coord_args(deps);
    let ghost b = views(extra@);
    args.append(&mut extra);
    assert(views(args@) =~= a + b);
    args
}

/// A scala-cli build writes its classes into the workspace root's target
/// directory whenever a workspace root is given, whether or not the whole
/// workspace is built, and into the project's own target directory otherwise:
/// the command is `compile`, then `--workspace <root>` for a workspace build,
/// then `-d <target path>` and the source directory, then the dependencies.
pub proof fn law_build_target_follows_workspace_root(
    r: Result<BuildInvocation, String>,
    proj: Seq<char>,
    ds: Seq<DepView>,
    source_dir: Seq<char>,
    target_dir: Seq<char>,
    ws: Option<Seq<char>>,
    is_workspace_build: bool,
)
    requires
        build_invocation_ok(r, proj, ds, source_dir, target_dir, "scala-cli"@, ws, is_workspace_build),
    ensures
        r matches Ok(BuildInvocation::ScalaCli(args)) && ({
            let a = views(args@);
            let i: int = if is_workspace_build { 3 } else { 1 };
            &&& a.len() >= i + 3
            &&& a[0] == "compile"@
            &&& a[i] == "-d"@
            &&& a[i + 1] == match ws {
                Some(w) => path_join(w, target_dir),
                None => path_join(proj, target_dir),
            }
            &&& a[i + 2] == path_join(proj, source_dir)
            &&& is_workspace_build ==> a[1] == "--workspace"@ && a[2] == match ws {
                Some(w) => w,
                None => proj,
            }
        }),
{
    reveal_strlit("scala-cli");
}

} // verus!
