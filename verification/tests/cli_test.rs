//! Mapping what the argument parser matched onto the commands.

use sinter::cli::{
    build_scope, dispatch, find_member, member_name_from, parse_command_from_matches, run_target,
    test_target, workspace_target_dir, BuildScope, Commands, Dispatch, MatchedArgs,
    WorkspaceCommands,
};
use sinter::models::{DependencyMap, Package, Project};
use sinter::toolkit::os::PathWrapper;

fn matched(sub: Option<&str>, nested: Option<&str>, values: &[&str], lib: bool) -> MatchedArgs {
    MatchedArgs {
        subcommand: sub.map(|s| s.to_string()),
        nested: nested.map(|s| s.to_string()),
        values: values.iter().map(|s| s.to_string()).collect(),
        lib,
    }
}

fn parse(sub: Option<&str>, nested: Option<&str>, values: &[&str], lib: bool) -> Option<Commands> {
    parse_command_from_matches(&matched(sub, nested, values, lib))
}

#[test]
fn parse_new_command() {
    let cmd = parse(Some("new"), None, &["myproject"], false);
    assert!(matches!(&cmd, Some(Commands::New { name }) if name == "myproject"));
}

#[test]
fn parse_init_command() {
    let cmd = parse(Some("init"), None, &[], false);
    assert!(matches!(&cmd, Some(Commands::Init)));
}

#[test]
fn parse_build_command() {
    let cmd = parse(Some("build"), None, &[], false);
    assert!(matches!(&cmd, Some(Commands::Build)));
}

#[test]
fn parse_run_command_no_args() {
    let cmd = parse(Some("run"), None, &[], false);
    assert!(matches!(&cmd, Some(Commands::Run { file: None, lib: false })));
}

#[test]
fn parse_run_command_with_file() {
    let cmd = parse(Some("run"), None, &["src/Main.scala"], false);
    assert!(matches!(&cmd, Some(Commands::Run { .. })));
    match cmd {
        Some(Commands::Run { file: Some(f), lib: false }) => {
            assert_eq!(f.as_path(), "src/Main.scala")
        }
        _ => panic!("expected a run of the given file"),
    }
}

#[test]
fn parse_run_command_lib_flag() {
    let cmd = parse(Some("run"), None, &[], true);
    assert!(matches!(&cmd, Some(Commands::Run { file: None, lib: true })));
}

#[test]
fn parse_add_command() {
    let cmd = parse(Some("add"), None, &["com.example:lib:1.0"], false);
    assert!(
        matches!(&cmd, Some(Commands::Add { deps }) if deps.contains(&"com.example:lib:1.0".to_string()))
    );
}

#[test]
fn parse_add_multiple_deps() {
    let cmd = parse(Some("add"), None, &["a:b:1", "c:d:2"], false);
    assert!(matches!(&cmd, Some(Commands::Add { deps }) if deps.len() == 2));
}

#[test]
fn parse_test_command_no_args() {
    let cmd = parse(Some("test"), None, &[], false);
    assert!(matches!(&cmd, Some(Commands::Test { file: None })));
}

#[test]
fn parse_test_command_with_file() {
    let cmd = parse(Some("test"), None, &["src/test/scala"], false);
    assert!(matches!(&cmd, Some(Commands::Test { .. })));
}

#[test]
fn parse_workspace_add_command() {
    let cmd = parse(Some("workspace"), Some("add"), &["member-a"], false);
    assert!(matches!(&cmd, Some(Commands::Workspace { .. })));
    match cmd {
        Some(Commands::Workspace { subcommand: WorkspaceCommands::Add { paths } }) => {
            assert_eq!(paths, vec!["member-a".to_string()])
        }
        _ => panic!("expected workspace add"),
    }
}

#[test]
fn no_command_returns_none() {
    let cmd = parse(None, None, &[], false);
    assert!(cmd.is_none());
}

#[test]
fn parse_jsp_plugin_command() {
    let cmd = parse(Some("jsp"), None, &["webapp"], false);
    assert!(matches!(&cmd, Some(Commands::Jsp { name }) if name == "webapp"));
}

#[test]
fn parse_workspace_without_subcommand_is_none() {
    assert!(parse(Some("workspace"), None, &[], false).is_none());
    assert!(parse(Some("workspace"), Some("remove"), &["x"], false).is_none());
}

#[test]
fn parse_unknown_subcommand_is_none() {
    assert!(parse(Some("deploy"), None, &["x"], false).is_none());
}

#[test]
fn dispatch_prefers_plugin_then_builtin_then_default() {
    let names = vec!["jsp", "docs"];
    assert_eq!(dispatch(&names, Some("docs"), true), Dispatch::Plugin(1));
    assert_eq!(dispatch(&names, Some("build"), true), Dispatch::Builtin);
    assert_eq!(dispatch(&names, None, false), Dispatch::Default);
    assert_eq!(dispatch(&names, Some("unknown"), false), Dispatch::Default);
}

#[test]
fn build_scope_by_location() {
    assert_eq!(build_scope(true, true), BuildScope::AllMembers);
    assert_eq!(build_scope(true, false), BuildScope::AllMembers);
    assert_eq!(build_scope(false, true), BuildScope::CurrentMember);
    assert_eq!(build_scope(false, false), BuildScope::Standalone);
}

#[test]
fn member_name_is_first_relative_component() {
    assert_eq!(member_name_from(&PathWrapper::new("core/src/main")), Some("core".to_string()));
    assert_eq!(member_name_from(&PathWrapper::new("./app")), Some(".".to_string()));
    assert_eq!(member_name_from(&PathWrapper::new("")), None);
    assert_eq!(member_name_from(&PathWrapper::new("/abs/x")), Some("/".to_string()));
}

fn project_named(name: &str) -> Project {
    Project {
        root_path: PathWrapper::new("/ws"),
        package: Package {
            name: name.into(),
            version: "0.1.0".into(),
            main: None,
            scala_version: "2.13".into(),
            source_dir: "src/main/scala".into(),
            target_dir: "target".into(),
            test_dir: "src/test/scala".into(),
            backend: "scala-cli".into(),
        },
        dependencies: DependencyMap::new(),
        workspace: None,
    }
}

#[test]
fn find_member_by_package_name() {
    let members = vec![project_named("a"), project_named("b"), project_named("b")];
    assert_eq!(find_member(&members, "b"), Some(1));
    assert_eq!(find_member(&members, "c"), None);
}

#[test]
fn workspace_target_dir_formula() {
    assert_eq!(workspace_target_dir("target", "core"), "target/core");
}

#[test]
fn run_and_test_targets_default_to_project() {
    let p = project_named("app");
    assert_eq!(run_target(&None, &p).as_path(), "/ws/src/main/scala/Main.scala");
    let given = Some(PathWrapper::new("x/Y.scala"));
    assert_eq!(run_target(&given, &p).as_path(), "x/Y.scala");
    assert_eq!(test_target(&None, &p).as_path(), "src/test/scala");
    assert_eq!(test_target(&given, &p).as_path(), "x/Y.scala");
}
