//! Loading manifests, finding the workspace root, the BSP layout, the
//! classpath generator, the resolvers and managers, and the JSP plugin.

use sinter::config::{
    WorkspaceManifest,
    ancestors, declares_workspace, find_workspace_root, load_project, workspace_root_dto, load_workspace, member_dirs,
};
use sinter::dependency::{CoursierResolver, DependencyResolver};
use sinter::deps::Dependency;
use sinter::ide::bsp::{
    bsp_argv, cleanup_paths, dependency_coords, is_scala_file, listed_file, options_text,
    scalac_options, source_path,
};
use sinter::ide::{generate_classpath, ClasspathGenerator};
use sinter::models::{DependencyDto, DependencyMap, PackageDto, Project, ProjectDto, WorkspaceDto};
use sinter::plugins::{jsp_plugin, JspPlugin};
use sinter::toolkit::os::PathWrapper;
use sinter::workspace::{MemberManager, WorkspaceManager};

fn package_dto(name: &str) -> PackageDto {
    PackageDto {
        name: name.into(),
        version: "0.1.0".into(),
        main: None,
        scala_version: "2.13".into(),
        source_dir: "src/main/scala".into(),
        target_dir: "target".into(),
        test_dir: "src/test/scala".into(),
        backend: "scala-cli".into(),
    }
}

fn dto(name: &str, ws: Option<WorkspaceDto>) -> ProjectDto {
    ProjectDto { package: package_dto(name), dependencies: Vec::new(), workspace: ws }
}

fn paths(v: &[PathWrapper]) -> Vec<String> {
    v.iter().map(|p| p.to_string_lossy()).collect()
}

#[test]
fn load_valid_project_sets_root() {
    let p = load_project(dto("app", None), PathWrapper::new("/home/u/app")).unwrap();
    assert_eq!(p.get_name(), "app");
    assert_eq!(p.get_root_path().as_path(), "/home/u/app");
}

#[test]
fn load_invalid_project_reports_all_errors() {
    let mut d = dto("", None);
    d.package.backend = "make".into();
    d.dependencies = vec![("bad".into(), DependencyDto::Simple("a:b".into()))];
    let err = load_project(d, PathWrapper::new("/x")).unwrap_err();
    assert_eq!(
        err,
        "项目配置验证失败:\n项目名称不能为空\n不支持的后端: make，支持的后端: scala-cli, sbt, gradle, maven\n依赖 'bad' 验证失败: 依赖格式无效 'a:b'，应为 'group:artifact:version'"
    );
}

#[test]
fn ancestors_of_paths() {
    assert_eq!(paths(&ancestors(&PathWrapper::new("/a/b"))), vec!["/a/b", "/a", "/"]);
    assert_eq!(paths(&ancestors(&PathWrapper::new("a/b"))), vec!["a/b", "a", ""]);
    assert_eq!(paths(&ancestors(&PathWrapper::new("/"))), vec!["/"]);
    assert_eq!(paths(&ancestors(&PathWrapper::new(""))), vec![""]);
}

#[test]
fn nearest_workspace_root_wins() {
    let cands = ancestors(&PathWrapper::new("/ws/inner/app"));
    let found = find_workspace_root(&cands, &vec![false, true, true, false]).unwrap();
    assert_eq!(found.as_path(), "/ws/inner");
    assert!(find_workspace_root(&cands, &vec![false, false, false, false]).is_none());
    let ws = WorkspaceDto { members: vec!["a".into()], dependencies: Vec::new() };
    let with_package = dto("root", Some(ws));
    let head = WorkspaceManifest {
        package: Some(with_package.package.clone()),
        dependencies: Vec::new(),
        workspace: with_package.workspace.clone(),
    };
    assert!(declares_workspace(&head));
    let bare = WorkspaceManifest { package: None, dependencies: Vec::new(), workspace: with_package.workspace.clone() };
    assert!(declares_workspace(&bare));
    let rooted = workspace_root_dto(bare);
    assert_eq!(rooted.package.name, "");
    assert_eq!(rooted.package.target_dir, "target");
    assert!(rooted.workspace.is_some());
    let plain = WorkspaceManifest { package: Some(dto("app", None).package), dependencies: Vec::new(), workspace: None };
    assert!(!declares_workspace(&plain));
}

#[test]
fn workspace_members_load_in_order() {
    let ws = WorkspaceDto { members: vec!["a".into(), "b".into()], dependencies: Vec::new() };
    let root = Project::from_dto(dto("root", Some(ws))).with_root_path(PathWrapper::new("/ws"));
    assert_eq!(paths(&member_dirs(&PathWrapper::new("/ws"), &root.get_workspace().unwrap().members)), vec!["/ws/a", "/ws/b"]);
    let a = load_project(dto("a", None), PathWrapper::new("/ws/a"));
    let b = load_project(dto("b", None), PathWrapper::new("/ws/b"));
    let (r, members) = load_workspace(root, vec![a, b]).unwrap().unwrap();
    assert_eq!(r.get_name(), "root");
    let names: Vec<&str> = members.iter().map(|m| m.get_name()).collect();
    assert_eq!(names, vec!["a", "b"]);
}

#[test]
fn workspace_member_failure_names_the_member() {
    let ws = WorkspaceDto { members: vec!["a".into(), "b".into(), "c".into()], dependencies: Vec::new() };
    let root = Project::from_dto(dto("root", Some(ws)));
    let loaded = vec![
        load_project(dto("a", None), PathWrapper::new("/ws/a")),
        Err("broken".to_string()),
        Err("also broken".to_string()),
    ];
    assert_eq!(load_workspace(root, loaded).unwrap_err(), "Failed to load workspace member: b");
}

#[test]
fn not_a_workspace_gives_none() {
    let root = Project::from_dto(dto("solo", None));
    assert!(load_workspace(root, Vec::new()).unwrap().is_none());
}

#[test]
fn bsp_layout() {
    let bsp = PathWrapper::new("/ws");
    assert_eq!(source_path(&bsp, "", "src").as_path(), "/ws/src");
    assert_eq!(source_path(&bsp, "core", "src").as_path(), "/ws/core/src");
    let dirs = vec![(String::new(), "src".to_string()), ("core".to_string(), "src/main/scala".to_string())];
    assert_eq!(scalac_options(&dirs), vec!["src/**/*.scala", "core/src/main/scala/**/*.scala"]);
    assert_eq!(
        paths(&cleanup_paths(&bsp, &dirs)),
        vec!["/ws/.bsp", "/ws/.scala-build", "/ws/src/.bsp", "/ws/src/.scala-build", "/ws/core/src/main/scala/.bsp", "/ws/core/src/main/scala/.scala-build"]
    );
    let globs = scalac_options(&dirs);
    assert_eq!(
        options_text("{\"scalac\": [\"{scalac_option}\"]}", &globs),
        "{\"scalac\": [\"src/**/*.scala\",\"core/src/main/scala/**/*.scala\"]}"
    );
}

#[test]
fn bsp_launcher_and_files() {
    let argv = bsp_argv("scala-cli", "/ws/.scala-build", &vec!["src/A.scala".to_string()]);
    assert_eq!(
        argv,
        vec![
            "scala-cli",
            "bsp",
            "--json-options",
            "/ws/.scala-build/ide-options-v2.json",
            "--json-launcher-options",
            "/ws/.scala-build/ide-launcher-options.json",
            "--envs-file",
            "/ws/.scala-build/ide-envs.json",
            "src/A.scala",
        ]
    );
    assert!(is_scala_file(&PathWrapper::new("/ws/src/A.scala")));
    assert!(!is_scala_file(&PathWrapper::new("/ws/src/A.java")));
    assert_eq!(listed_file(&PathWrapper::new("/ws/src/A.scala"), &PathWrapper::new("/ws")), "src/A.scala");
    assert_eq!(listed_file(&PathWrapper::new("/other/A.scala"), &PathWrapper::new("/ws")), "/other/A.scala");
    let deps = vec![Dependency::Sbt { path: "p".into() }];
    assert_eq!(dependency_coords(&deps), vec!["sbt:p"]);
}

#[test]
fn classpath_and_resolvers_are_empty() {
    let p = Project::from_dto(dto("app", None));
    assert_eq!(generate_classpath(&p, &Vec::new()).unwrap(), "");
    assert_eq!(ClasspathGenerator.generate_classpath(&p, &Vec::new()).unwrap(), "");
    assert_eq!(ClasspathGenerator.generate_workspace_classpath(&vec![], &Vec::new()).unwrap(), "");
    assert!(CoursierResolver.resolve_dependencies(&p).is_empty());
    assert!(CoursierResolver.resolve_dependencies_with_workspace(&p, Some(&p)).is_empty());
    let empty = sinter::models::Workspace {
        root_path: PathWrapper::new("/"),
        members: Vec::new(),
        dependencies: DependencyMap::new(),
    };
    assert_eq!(WorkspaceManager::new().validate_workspace(&empty).unwrap_err(), "工作空间成员列表不能为空");
    let one = sinter::models::Workspace {
        root_path: PathWrapper::new("/"),
        members: vec!["core".to_string()],
        dependencies: DependencyMap::new(),
    };
    assert!(WorkspaceManager::new().validate_workspace(&one).is_ok());
    let m = MemberManager::new();
    let added = m.add_member("[workspace]\nmembers = [\"core\"]\n", "a").ok().unwrap();
    assert!(added.contains("\"core\", \"a\""));
    let removed = m.remove_member(&added, "core").ok().unwrap();
    assert!(removed.contains("members = [\"a\"]") || removed.contains("members = [ \"a\"]"));
    assert!(m.remove_member(&removed, "core").is_err());
    assert_eq!(m.validate_member(&p).is_ok(), p.validate().is_ok());
}

#[test]
fn jsp_plugin_layout() {
    let plugin: JspPlugin = jsp_plugin();
    assert_eq!(plugin.name(), "jsp");
    assert_eq!(plugin.about(), "Generate a new JSP project");
    let dir = plugin.project_dir(&PathWrapper::new("/home"), "shop");
    assert_eq!(dir.as_path(), "/home/shop");
    assert_eq!(
        paths(&plugin.dirs(&dir)),
        vec!["/home/shop/src/main/webapp/WEB-INF", "/home/shop/src/main/java", "/home/shop/src/main/resources"]
    );
    assert_eq!(plugin.pom_xml("<artifactId>{{name}}</artifactId>{{name}}", "shop"), "<artifactId>shop</artifactId>shop");
    let files = plugin.files(&dir, "shop", "<a>{{name}}</a>", "<web/>", "<%= 1 %>");
    assert_eq!(files[0].0.as_path(), "/home/shop/pom.xml");
    assert_eq!(files[0].1, "<a>shop</a>");
    assert_eq!(files[1].0.as_path(), "/home/shop/src/main/webapp/WEB-INF/web.xml");
    assert_eq!(files[2].1, "<%= 1 %>");
    assert_eq!(plugin.exists_message("shop"), "JSP project 'shop' already exists");
    assert_eq!(plugin.created_lines("shop")[2], "  cd shop");
}

#[test]
fn workspace_sources_in_member_order() {
    let members = vec![Project::from_dto(dto("core", None)), Project::from_dto(dto("web", None))];
    let (dirs, backend) = sinter::cli::workspace_sources(&members);
    assert_eq!(dirs, vec![("core".to_string(), members[0].get_source_dir().to_string()), ("web".to_string(), members[1].get_source_dir().to_string())]);
    assert_eq!(backend.as_deref(), Some(members[0].get_backend()));
    let (none, no_backend) = sinter::cli::workspace_sources(&Vec::new());
    assert!(none.is_empty() && no_backend.is_none());
}
