//! `sinter add` plans, the dependency manager, transitive merging, sbt
//! trees, and the command lines of builds and runs.

use sinter::build::backend::BuildBackend;
use sinter::build::common::has_main_method as has_main_basic;
use sinter::build::runner::{
    artifact_paths, bsp_source_dirs, build_invocation, build_target_path, combine_output,
    dependency_coord_args, has_main_method, run_invocation, run_mode, run_result, scala_file_args,
    single_file_args, test_args, BuildInvocation, RunMode,
};
use sinter::build::sbt_builder::SbtBuilder;
use sinter::build::scala_cli::{bundled_scala_cli_path, scala_cli_outcome};
use sinter::deps::add::{parse_dep_spec, plan_add_dependency, AddCheck, DepSpecError, ManifestSection};
use sinter::deps::manager::{
    default_dependency_manager, merge_transitive, parse_dependency_tree, parse_maven_coord,
    parse_tree_line, validation_args, DependencyManager, ScalaCliDependencyManager, UniqueDeps,
};
use sinter::deps::{get_dependencies, get_dependencies_with_workspace, Dependency};
use sinter::models::{DependencyDetail, DependencyMap, DependencySpec, Package, Project, Workspace};
use sinter::toolkit::os::PathWrapper;

fn maven(g: &str, a: &str, v: &str) -> Dependency {
    Dependency::Maven { group: g.into(), artifact: a.into(), version: v.into(), is_scala: false }
}

fn coords(ds: &[Dependency]) -> Vec<String> {
    ds.iter().map(|d| d.coord()).collect()
}

// ─────────────── parsing `sinter add` arguments ───────────────

#[test]
fn parse_scala_spec_with_default_version() {
    let r = parse_dep_spec("org.typelevel::cats-core:2.10.0", "2.13").unwrap();
    assert_eq!(r, ("org.typelevel::cats-core".to_string(), "2.13".to_string(), "2.10.0".to_string()));
}

#[test]
fn parse_scala_spec_with_explicit_version() {
    let r = parse_dep_spec("org.typelevel::cats-core@3:2.10.0", "2.13").unwrap();
    assert_eq!(r, ("org.typelevel::cats-core".to_string(), "3".to_string(), "2.10.0".to_string()));
}

#[test]
fn parse_java_spec() {
    let r = parse_dep_spec("com.google.guava:guava:31.1-jre", "2.13").unwrap();
    assert_eq!(r, ("com.google.guava:guava".to_string(), String::new(), "31.1-jre".to_string()));
}

#[test]
fn parse_spec_errors() {
    assert_eq!(parse_dep_spec("a::b::c:1", "2.13").unwrap_err(), DepSpecError::InvalidFormat);
    assert_eq!(parse_dep_spec("a::b", "2.13").unwrap_err(), DepSpecError::InvalidFormat);
    assert_eq!(parse_dep_spec("a::b:latest", "2.13").unwrap_err(), DepSpecError::VersionRequired);
    assert_eq!(parse_dep_spec("a::b:", "2.13").unwrap_err(), DepSpecError::VersionRequired);
    assert_eq!(parse_dep_spec("a:b", "2.13").unwrap_err(), DepSpecError::InvalidFormat);
    assert_eq!(
        DepSpecError::VersionRequired.message(),
        "必须明确指定版本，不允许使用 'latest'"
    );
    assert_eq!(
        DepSpecError::InvalidFormat.message(),
        "依赖格式无效，请使用完整格式：group::artifact:version"
    );
    assert_eq!(DepSpecError::ArtifactHasDoubleColon.message(), "依赖格式无效，artifact 不应包含 '::'");
}

#[test]
fn plan_scala_dependency() {
    let plan = plan_add_dependency("org.typelevel::cats-core:2.10.0", "2.13", false).unwrap();
    assert_eq!(plan.key, "org.typelevel::cats-core_2.13");
    assert_eq!(plan.version, "2.10.0");
    assert_eq!(plan.section, ManifestSection::Dependencies);
    match plan.check {
        AddCheck::ValidateMaven(d) => {
            assert_eq!(d.coord(), "org.typelevel:cats-core_2.13:2.10.0");
            assert!(matches!(d, Dependency::Maven { is_scala: true, .. }));
        }
        _ => panic!("expected a repository check"),
    }
}

#[test]
fn plan_in_workspace_root_targets_workspace_table() {
    let plan = plan_add_dependency("com.google.guava:guava:31.1-jre", "2.13", true).unwrap();
    assert_eq!(plan.key, "com.google.guava:guava");
    assert_eq!(plan.section, ManifestSection::WorkspaceDependencies);
}

#[test]
fn plan_sbt_dependency() {
    let plan = plan_add_dependency("sbt:../lib", "2.13", false).unwrap();
    assert_eq!(plan.key, "sbt:../lib");
    assert_eq!(plan.version, "");
    assert!(matches!(plan.check, AddCheck::SbtPathExists(ref p) if p == "../lib"));
    let plan2 = plan_add_dependency("../other/proj", "2.13", false).unwrap();
    assert_eq!(plan2.key, "sbt:../other/proj");
}

#[test]
fn plan_refuses_bad_argument() {
    assert_eq!(plan_add_dependency("nonsense", "2.13", false).unwrap_err(), DepSpecError::InvalidFormat);
}

#[test]
fn added_dependency_reads_back_through_manifest() {
    let plan = plan_add_dependency("org.typelevel::cats-core:2.10.0", "3", false).unwrap();
    let mut deps = DependencyMap::new();
    deps.insert("com.x:y".into(), DependencySpec::Simple("1.0".into()));
    deps.insert(plan.key.clone(), DependencySpec::Simple(plan.version.clone()));
    let project = Project {
        root_path: PathWrapper::new("/p"),
        package: Package {
            name: "p".into(),
            version: "1".into(),
            main: None,
            scala_version: "3".into(),
            source_dir: "src".into(),
            target_dir: "target".into(),
            test_dir: "test".into(),
            backend: "scala-cli".into(),
        },
        dependencies: deps,
        workspace: None,
    };
    let read = get_dependencies(&project);
    let checked = match plan.check {
        AddCheck::ValidateMaven(d) => d.coord(),
        _ => panic!("expected a repository check"),
    };
    assert_eq!(coords(&read), vec!["com.x:y:1.0".to_string(), checked]);
}

// ─────────────── reading the manifest ───────────────

fn project_with(deps: DependencyMap, ws: Option<Workspace>) -> Project {
    Project {
        root_path: PathWrapper::new("/p"),
        package: Package {
            name: "p".into(),
            version: "1".into(),
            main: None,
            scala_version: "2.13".into(),
            source_dir: "src".into(),
            target_dir: "target".into(),
            test_dir: "test".into(),
            backend: "scala-cli".into(),
        },
        dependencies: deps,
        workspace: ws,
    }
}

#[test]
fn direct_dependencies_skip_versionless_entries() {
    let mut deps = DependencyMap::new();
    deps.insert("a:b".into(), DependencySpec::Simple("1".into()));
    deps.insert("c:d".into(), DependencySpec::Detailed(DependencyDetail { version: None, workspace: true }));
    deps.insert(
        "e:f".into(),
        DependencySpec::Detailed(DependencyDetail { version: Some("2".into()), workspace: false }),
    );
    let p = project_with(deps, None);
    assert_eq!(coords(&get_dependencies(&p)), vec!["a:b:1", "e:f:2"]);
}

#[test]
fn workspace_entries_take_root_versions() {
    let mut deps = DependencyMap::new();
    deps.insert("c:d".into(), DependencySpec::Detailed(DependencyDetail { version: None, workspace: true }));
    deps.insert("x:y".into(), DependencySpec::Detailed(DependencyDetail { version: None, workspace: true }));
    let member = project_with(deps, None);
    let mut ws_deps = DependencyMap::new();
    ws_deps.insert("c:d".into(), DependencySpec::Simple("9".into()));
    let root = project_with(
        DependencyMap::new(),
        Some(Workspace { root_path: PathWrapper::new("/w"), members: vec!["m".into()], dependencies: ws_deps }),
    );
    assert_eq!(coords(&get_dependencies_with_workspace(&member, Some(&root))), vec!["c:d:9"]);
    assert!(get_dependencies_with_workspace(&member, None).is_empty());
}

// ─────────────── the dependency manager ───────────────

#[test]
fn manager_build_args_resolve_sbt_paths() {
    let mut m = ScalaCliDependencyManager::new();
    let deps = vec![maven("g", "a", "1"), Dependency::Sbt { path: "../lib".into() }, Dependency::Sbt { path: "/abs".into() }];
    assert_eq!(
        m.get_build_args(&deps),
        vec!["--dependency", "g:a:1", "--dependency", "file://../lib", "--dependency", "file:///abs"]
    );
    m.set_project_dir("/proj");
    assert_eq!(m.resolve_path("../lib"), "/proj/../lib");
    assert_eq!(m.get_run_args(&deps)[3], "file:///proj/../lib");
    assert_eq!(m.sbt_paths_to_check(&deps), vec!["/proj/../lib", "/abs"]);
    assert!(default_dependency_manager().get_build_args(&Vec::new()).is_empty());
}

#[test]
fn manager_through_trait() {
    let mut m = ScalaCliDependencyManager::new();
    DependencyManager::set_project_dir(&mut m, "/d");
    let deps = vec![Dependency::Sbt { path: "x".into() }];
    assert_eq!(DependencyManager::get_build_args(&m, &deps), vec!["--dependency", "file:///d/x"]);
    assert_eq!(DependencyManager::get_run_args(&m, &deps), vec!["--dependency", "file:///d/x"]);
}

#[test]
fn validation_arguments() {
    assert_eq!(
        validation_args("g:a:1"),
        vec!["--dependency", "g:a:1", "--quiet", "-e", "println(\"test\")"]
    );
}

#[test]
fn maven_coordinate_lines() {
    let d = parse_maven_coord("  org.typelevel:cats-core_2.13:2.10.0 ").unwrap();
    assert_eq!(d.coord(), "org.typelevel:cats-core_2.13:2.10.0");
    assert!(matches!(d, Dependency::Maven { is_scala: true, .. }));
    assert!(parse_maven_coord("# comment").is_none());
    assert!(parse_maven_coord("").is_none());
    assert!(parse_maven_coord("a:b").is_none());
    assert!(matches!(parse_maven_coord("a:b_2.12:1:extra"), Some(Dependency::Maven { is_scala: true, .. })));
}

#[test]
fn unique_deps_keep_first_of_each_coordinate() {
    let mut u = UniqueDeps::new();
    u.add(maven("g", "a", "1"));
    u.add(maven("g", "b", "1"));
    u.add(maven("g", "a", "1"));
    assert_eq!(coords(&u.deps), vec!["g:a:1", "g:b:1"]);
}

#[test]
fn transitive_merge_expands_sbt_trees_and_dedups() {
    let deps = vec![maven("g", "a", "1"), Dependency::Sbt { path: "p".into() }, Dependency::Sbt { path: "q".into() }];
    let trees = vec![None, Some(vec![maven("g", "a", "1"), maven("h", "c", "2")]), None];
    let merged = merge_transitive(&deps, trees);
    assert_eq!(coords(&merged), vec!["g:a:1", "h:c:2", "sbt:q"]);
}

#[test]
fn sbt_tree_lines() {
    let d = parse_tree_line("[info]   +-org.typelevel:cats-kernel_2.13:2.10.0").unwrap();
    assert_eq!(d.coord(), "org.typelevel:cats-kernel_2.13:2.10.0");
    assert!(parse_tree_line("[info] +-a:b:1 (evicted)").is_none());
    assert!(parse_tree_line("[info] root:project:0.1").is_none());
    let out = "[info] root\n[info] +-a:b:1 [S]\n[info] | +-c:d:2\n[info] +-e:f:3 (evicted)\n[info] +-a:b:1\n";
    assert_eq!(coords(&parse_dependency_tree(out)), vec!["a:b:1", "c:d:2"]);
}

// ─────────────── builds and runs ───────────────

#[test]
fn entry_point_detection() {
    assert!(has_main_method("object A { def main(args: Array[String]) = () }"));
    assert!(has_main_method("object A extends App"));
    assert!(has_main_method("@main def hello() = ()"));
    assert!(!has_main_method("class Lib"));
    assert!(!has_main_basic("@main def hello() = ()"));
    assert!(has_main_basic("object A extends App"));
}

#[test]
fn run_modes_and_file_arguments() {
    assert_eq!(run_mode(true, true), RunMode::Lib);
    assert_eq!(run_mode(false, false), RunMode::Lib);
    assert_eq!(run_mode(false, true), RunMode::App);
    assert_eq!(scala_file_args(RunMode::App, "/p/A.scala"), vec!["run", "/p/A.scala"]);
    assert_eq!(scala_file_args(RunMode::Lib, "/p/A.scala"), vec!["compile", "/p/A.scala"]);
    let m = ScalaCliDependencyManager::new();
    assert_eq!(
        single_file_args(&m, "/p/A.scala", false, &vec![maven("g", "a", "1")]),
        vec!["compile", "/p/A.scala", "--dependency", "g:a:1"]
    );
}

#[test]
fn run_output_is_combined_and_trimmed() {
    assert_eq!(combine_output("out", ""), "out");
    assert_eq!(combine_output("out", "err"), "out\nerr");
    let r = run_result(RunMode::App, " hi \n", "");
    assert_eq!(r.output, "hi");
    assert_eq!(r.mode, RunMode::App);
}

#[test]
fn scala_cli_build_invocation() {
    let proj = PathWrapper::new("/ws/app");
    let ws = PathWrapper::new("/ws");
    let deps = vec![maven("g", "a", "1")];
    match build_invocation(&proj, &deps, "src", "target", "scala-cli", Some(&ws), true).unwrap() {
        BuildInvocation::ScalaCli(args) => assert_eq!(
            args,
            vec!["compile", "--workspace", "/ws", "-d", "/ws/target", "/ws/app/src", "--dependency", "g:a:1"]
        ),
        _ => panic!("expected scala-cli"),
    }
    match build_invocation(&proj, &Vec::new(), "src", "target", "scala-cli", None, false).unwrap() {
        BuildInvocation::ScalaCli(args) => assert_eq!(args, vec!["compile", "-d", "/ws/app/target", "/ws/app/src"]),
        _ => panic!("expected scala-cli"),
    }
}

#[test]
fn other_backend_invocations() {
    let proj = PathWrapper::new("/p");
    let e = Vec::new();
    assert!(matches!(build_invocation(&proj, &e, "s", "t", "sbt", None, false),
        Ok(BuildInvocation::Tool { ref tool, ref args }) if tool == "sbt" && args == &vec!["compile".to_string()]));
    assert!(matches!(build_invocation(&proj, &e, "s", "t", "maven", None, false),
        Ok(BuildInvocation::Tool { ref tool, .. }) if tool == "mvn"));
    assert!(matches!(build_invocation(&proj, &e, "s", "t", "gradle", None, false),
        Ok(BuildInvocation::Tool { ref args, .. }) if args == &vec!["build".to_string()]));
    assert_eq!(build_invocation(&proj, &e, "s", "t", "make", None, false).unwrap_err(), "Unsupported backend: make");
    assert!(matches!(run_invocation("maven"),
        Ok(BuildInvocation::Tool { ref args, .. }) if args == &vec!["exec:java".to_string()]));
    assert_eq!(run_invocation("scala-cli").unwrap_err(), "Backend 'scala-cli' not supported for running");
}

#[test]
fn build_paths_and_arguments() {
    let proj = PathWrapper::new("/ws/app");
    let ws = PathWrapper::new("/ws");
    assert_eq!(build_target_path(&proj, "out", Some(&ws)).as_path(), "/ws/out");
    assert_eq!(build_target_path(&proj, "out", None).as_path(), "/ws/app/out");
    assert_eq!(bsp_source_dirs(&proj, "src", Some(&ws)), vec![("app".to_string(), "src".to_string())]);
    assert_eq!(bsp_source_dirs(&proj, "src", None), vec![(String::new(), "src".to_string())]);
    let arts: Vec<String> = artifact_paths(&proj, &proj.join("src")).iter().map(|p| p.to_string_lossy()).collect();
    assert_eq!(arts, vec!["/ws/app/src/.bsp", "/ws/app/src/.scala-build", "/ws/app/scala-cli.json"]);
    assert_eq!(
        test_args("/ws/app/test", &vec![maven("g", "a", "1")]),
        vec!["test", "/ws/app/test", "--dependency", "g:a:1"]
    );
    assert_eq!(dependency_coord_args(&vec![Dependency::Sbt { path: "x".into() }]), vec!["--dependency", "sbt:x"]);
}

#[test]
fn scala_cli_results() {
    assert_eq!(scala_cli_outcome(true, "ok", "warn").unwrap(), "ok");
    assert_eq!(scala_cli_outcome(false, "o", "e").unwrap_err(), "scala-cli failed: o\ne");
    assert_eq!(scala_cli_outcome(false, "o", "").unwrap_err(), "scala-cli failed: o");
    assert_eq!(bundled_scala_cli_path(&PathWrapper::new("/opt/sinter"), "scala-cli").as_path(), "/opt/sinter/bin/scala-cli");
}

#[test]
fn sbt_backend_accepts_requests() {
    let p = project_with(DependencyMap::new(), None);
    assert!(SbtBuilder.build(&p, &PathWrapper::new("/out")).is_ok());
    assert!(SbtBuilder.run(&p, &Vec::new()).is_ok());
    assert!(SbtBuilder.test(&p).is_ok());
}
