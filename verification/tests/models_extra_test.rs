//! Validation messages, libraries, directories, dependency tables and the
//! transfer forms of the model.

use sinter::models::{
    default_backend, default_scala_version, default_source_dir, default_target_dir, default_test_dir,
    is_valid_version, DependencyDetail, DependencyDetailDto, DependencyDto, DependencyMap,
    DependencySpec, Directory, Library, LibraryDto, LibraryType, LibraryTypeDto, Package, Project,
    ProjectDto, Workspace, WorkspaceDto,
};
use sinter::toolkit::os::PathWrapper;

fn errors_of(r: Result<(), Vec<String>>) -> Vec<String> {
    match r {
        Ok(()) => Vec::new(),
        Err(es) => es,
    }
}

fn package() -> Package {
    Package {
        name: "app".into(),
        version: "0.1.0".into(),
        main: None,
        scala_version: "3.3".into(),
        source_dir: "src".into(),
        target_dir: "target".into(),
        test_dir: "test".into(),
        backend: "scala-cli".into(),
    }
}

#[test]
fn defaults_of_the_manifest() {
    assert_eq!(default_scala_version(), "2.13");
    assert_eq!(default_source_dir(), "src/main/scala");
    assert_eq!(default_target_dir(), "target");
    assert_eq!(default_test_dir(), "src/test/scala");
    assert_eq!(default_backend(), "scala-cli");
}

#[test]
fn version_characters() {
    assert!(is_valid_version("2.13.0-RC1_x"));
    assert!(!is_valid_version(""));
    assert!(!is_valid_version("1.0!"));
    assert!(!is_valid_version("1 0"));
}

#[test]
fn dependency_spec_messages() {
    assert_eq!(errors_of(DependencySpec::Simple("  ".into()).validate()), vec!["依赖字符串不能为空"]);
    assert_eq!(
        errors_of(DependencySpec::Simple("1.0!".into()).validate()),
        vec!["依赖版本格式无效: '1.0!'"]
    );
    assert_eq!(
        errors_of(DependencySpec::Simple("a:b".into()).validate()),
        vec!["依赖格式无效 'a:b'，应为 'group:artifact:version'"]
    );
    assert_eq!(
        errors_of(DependencySpec::Simple("g:a:1 0".into()).validate()),
        vec!["依赖版本格式无效: '1 0'"]
    );
    assert_eq!(
        errors_of(DependencySpec::Detailed(DependencyDetail { version: Some(" ".into()), workspace: false }).validate()),
        vec!["依赖版本不能为空"]
    );
    assert_eq!(
        errors_of(DependencySpec::Detailed(DependencyDetail { version: Some("bad v".into()), workspace: true }).validate()),
        vec!["依赖版本格式无效: 'bad v'", "工作空间依赖不应指定版本"]
    );
}

#[test]
fn dependency_spec_queries() {
    let s = DependencySpec::Simple("g:a:1.2".into());
    assert_eq!(s.to_coordinate(), Some("g:a:1.2".to_string()));
    assert!(!s.is_workspace_dependency());
    assert_eq!(DependencySpec::Simple("1.2".into()).get_version(), None);
    let d = DependencySpec::Detailed(DependencyDetail { version: None, workspace: true });
    assert_eq!(d.to_coordinate(), None);
    assert!(d.is_workspace_dependency());
    match d.to_dto() {
        DependencyDto::Detailed(DependencyDetailDto { version: None, workspace: true }) => {}
        _ => panic!("expected the detailed transfer form"),
    }
}

#[test]
fn package_messages_in_order() {
    let mut p = package();
    p.name = " ".into();
    p.scala_version = "1.0".into();
    p.backend = "make".into();
    assert_eq!(
        errors_of(p.validate()),
        vec![
            "项目名称不能为空",
            "Scala版本格式无效，应为 2.x 或 3.x",
            "不支持的后端: make，支持的后端: scala-cli, sbt, gradle, maven",
        ]
    );
    let mut q = package();
    q.version = "".into();
    q.source_dir = "".into();
    q.target_dir = "\t".into();
    assert_eq!(errors_of(q.validate()), vec!["项目版本不能为空", "源代码目录不能为空", "目标目录不能为空"]);
    assert!(package().validate().is_ok());
    let dto = package().to_dto();
    assert_eq!(dto.scala_version, "3.3");
}

#[test]
fn workspace_messages() {
    let mut deps = DependencyMap::new();
    deps.insert("bad-dep".into(), DependencySpec::Simple("com.example:lib".into()));
    let ws = Workspace { root_path: PathWrapper::new("/w"), members: vec![], dependencies: deps };
    assert_eq!(
        errors_of(ws.validate()),
        vec![
            "工作空间成员列表不能为空",
            "工作空间依赖 'bad-dep' 验证失败: 依赖格式无效 'com.example:lib'，应为 'group:artifact:version'",
        ]
    );
    let moved = ws.with_root_path(PathWrapper::new("/elsewhere"));
    assert_eq!(moved.root_path.as_path(), "/elsewhere");
}

#[test]
fn project_messages() {
    let mut deps = DependencyMap::new();
    deps.insert(" ".into(), DependencySpec::Simple("g:a:1".into()));
    deps.insert("broken".into(), DependencySpec::Simple("bad:format".into()));
    let p = Project {
        root_path: PathWrapper::new("/p"),
        package: package(),
        dependencies: deps,
        workspace: Some(Workspace { root_path: PathWrapper::new("/p"), members: vec![], dependencies: DependencyMap::new() }),
    };
    assert_eq!(
        errors_of(p.validate()),
        vec![
            "依赖名称不能为空",
            "依赖 'broken' 验证失败: 依赖格式无效 'bad:format'，应为 'group:artifact:version'",
            "工作空间成员列表不能为空",
        ]
    );
}

#[test]
fn project_paths_and_queries() {
    let mut p = Project {
        root_path: PathWrapper::new("/p"),
        package: package(),
        dependencies: DependencyMap::new(),
        workspace: None,
    };
    assert_eq!(p.get_version(), "0.1.0");
    assert_eq!(p.get_scala_version(), "3.3");
    assert_eq!(p.get_test_dir(), "test");
    assert_eq!(p.get_source_dir_abs().as_path(), "/p/src");
    assert_eq!(p.get_target_dir_abs().as_path(), "/p/target");
    assert_eq!(p.get_test_dir_abs().as_path(), "/p/test");
    assert_eq!(p.get_root_path().as_path(), "/p");
    assert!(p.get_workspace().is_none());
    let d = p.get_source_directory(true);
    assert_eq!(d.path.as_path(), "/p/src");
    assert_eq!(d.name, "src");
    assert!(!p.get_target_directory(false).exists);
    assert_eq!(p.get_test_directory(true).path.as_path(), "/p/test");
    assert_eq!(p.get_directory(true).path.as_path(), "/p");
    p.workspace = Some(Workspace { root_path: PathWrapper::empty(), members: vec!["m".into()], dependencies: DependencyMap::new() });
    let q = p.with_root_path(PathWrapper::new("/new"));
    assert_eq!(q.root_path.as_path(), "/new");
    assert_eq!(q.get_workspace().unwrap().root_path.as_path(), "/new");
}

#[test]
fn all_dependencies_prefer_workspace_entries() {
    let mut own = DependencyMap::new();
    own.insert("a".into(), DependencySpec::Simple("g:a:1".into()));
    own.insert("b".into(), DependencySpec::Simple("g:b:1".into()));
    let mut shared = DependencyMap::new();
    shared.insert("b".into(), DependencySpec::Simple("g:b:2".into()));
    shared.insert("c".into(), DependencySpec::Simple("g:c:3".into()));
    let p = Project {
        root_path: PathWrapper::new("/p"),
        package: package(),
        dependencies: own,
        workspace: Some(Workspace { root_path: PathWrapper::new("/p"), members: vec!["m".into()], dependencies: shared }),
    };
    let all = p.get_all_dependencies();
    assert_eq!(all.len(), 3);
    assert_eq!(all.get("b").and_then(|s| s.get_version()), Some("2"));
    assert_eq!(all.get("c").and_then(|s| s.get_version()), Some("3"));
    let names: Vec<String> = (0..all.len()).map(|i| all.entry(i).0.clone()).collect();
    assert_eq!(names, vec!["a", "b", "c"]);
    let libs = p.get_libraries();
    assert_eq!(libs.len(), 3);
    assert_eq!(libs[1].get_coordinate(), Some("g:b:2".to_string()));
    assert!(libs.iter().all(|l| l.is_external_library()));
}

#[test]
fn dependency_table_operations() {
    let mut m = DependencyMap::new();
    assert_eq!(m.len(), 0);
    assert!(m.insert("x".into(), DependencySpec::Simple("1".into())).is_none());
    assert!(m.insert("y".into(), DependencySpec::Simple("2".into())).is_none());
    let old = m.insert("x".into(), DependencySpec::Simple("3".into()));
    assert!(matches!(old, Some(DependencySpec::Simple(ref v)) if v == "1"));
    assert_eq!(m.len(), 2);
    assert_eq!(m.find("y"), Some(1));
    assert_eq!(m.find("z"), None);
    assert!(matches!(m.get("x"), Some(DependencySpec::Simple(v)) if v == "3"));
    let (name, _) = m.entry(0);
    assert_eq!(name, "x");
    assert_eq!(m.duplicate().len(), 2);
}

#[test]
fn libraries() {
    let ext = Library::from_dependency_spec("cats".into(), DependencySpec::Simple("org:cats:1.0".into()));
    assert_eq!(ext.library_type, LibraryType::External);
    assert!(ext.is_external_library() && !ext.is_local_library() && !ext.is_workspace_library());
    assert_eq!(ext.get_display_name(), "cats (org:cats:1.0)");
    assert_eq!(ext.get_coordinate(), Some("org:cats:1.0".to_string()));
    assert_eq!(ext.get_version(), Some("1.0"));
    assert!(!ext.available);
    let avail = ext.clone().mark_available();
    assert!(avail.available);
    let ws = Library::from_dependency_spec("w".into(), DependencySpec::Detailed(DependencyDetail { version: None, workspace: true }));
    assert!(ws.is_workspace_library());
    assert_eq!(ws.get_display_name(), "w");
    let local = Library::from_dependency_spec("l".into(), DependencySpec::Detailed(DependencyDetail { version: None, workspace: false }));
    assert!(local.is_local_library());
    let with_path = local.with_local_path(PathWrapper::new("/libs/l"));
    assert_eq!(errors_of(with_path.validate(false)), vec!["库 'l' 的本地路径不存在: /libs/l"]);
    assert!(with_path.validate(true).is_ok());
    let bad = Library::from_dependency_spec(" ".into(), DependencySpec::Simple("a:b".into()));
    assert_eq!(
        errors_of(bad.validate(true)),
        vec!["库名称不能为空", "库 ' ' 依赖错误: 依赖格式无效 'a:b'，应为 'group:artifact:version'"]
    );
}

#[test]
fn library_transfer_roundtrip() {
    let lib = Library::from_dependency_spec("cats".into(), DependencySpec::Simple("org:cats:1.0".into()))
        .with_local_path(PathWrapper::new("/l"))
        .mark_available();
    let dto = lib.to_dto();
    assert_eq!(dto.library_type, LibraryTypeDto::External);
    let back = Library::from_dto(dto);
    assert_eq!(back.name, "cats");
    assert_eq!(back.local_path.as_ref().map(|p| p.to_string_lossy()), Some("/l".to_string()));
    assert!(back.available);
    assert_eq!(back.get_coordinate(), Some("org:cats:1.0".to_string()));
    let from_pair: Library = ("n".to_string(), DependencySpec::Simple("g:n:1".into())).into();
    assert_eq!(from_pair.name, "n");
    let t: LibraryType = LibraryTypeDto::Workspace.into();
    assert_eq!(t, LibraryType::Workspace);
    let l2: Library = LibraryDto {
        name: "x".into(),
        spec: DependencyDto::Simple("g:x:1".into()),
        local_path: None,
        available: false,
        library_type: LibraryTypeDto::Local,
    }
    .into();
    assert_eq!(l2.library_type, LibraryType::Local);
}

#[test]
fn directories() {
    let d = Directory::from_path(&PathWrapper::new("/p/src"), true);
    assert_eq!(d.name, "src");
    assert!(d.validate(true).is_ok());
    assert_eq!(errors_of(d.validate(false)), vec!["路径不是目录: /p/src"]);
    let missing = d.get_subdirectory("gen", false);
    assert_eq!(missing.path.as_path(), "/p/src/gen");
    assert_eq!(errors_of(missing.validate(false)), vec!["目录不存在: /p/src/gen"]);
    assert!(missing.is_empty(true));
    assert!(d.is_empty(false));
    assert!(!d.is_empty(true));
    assert_eq!(d.get_size(&vec![10, 20, 30]), 60);
    assert_eq!(missing.get_size(&vec![10]), 0);
    let parent = d.get_parent(true).unwrap();
    assert_eq!(parent.path.as_path(), "/p");
    assert_eq!(parent.name, "p");
    assert!(Directory::from_path(&PathWrapper::new("/"), true).get_parent(true).is_none());
    assert_eq!(d.as_ref().as_path(), "/p/src");
}

#[test]
fn project_transfer_roundtrip() {
    let mut deps = DependencyMap::new();
    deps.insert("g:a".into(), DependencySpec::Simple("1".into()));
    deps.insert("g:b".into(), DependencySpec::Detailed(DependencyDetail { version: Some("2".into()), workspace: false }));
    let p = Project {
        root_path: PathWrapper::new("/p"),
        package: package(),
        dependencies: deps,
        workspace: Some(Workspace { root_path: PathWrapper::new("/p"), members: vec!["m".into()], dependencies: DependencyMap::new() }),
    };
    let dto: ProjectDto = p.to_dto();
    assert_eq!(dto.dependencies.len(), 2);
    let back = Project::from_dto(dto);
    assert_eq!(back.root_path.as_path(), "");
    assert_eq!(back.package.name, "app");
    assert_eq!(back.dependencies.len(), 2);
    assert!(matches!(back.dependencies.get("g:b"), Some(DependencySpec::Detailed(d)) if d.version.as_deref() == Some("2")));
    assert_eq!(back.get_workspace().unwrap().members, vec!["m".to_string()]);
}

#[test]
fn workspace_transfer_form() {
    let dto = WorkspaceDto {
        members: vec!["a".into()],
        dependencies: vec![("x".into(), DependencyDto::Simple("1".into())), ("x".into(), DependencyDto::Simple("2".into()))],
    };
    let ws = Workspace::from_dto(dto);
    assert_eq!(ws.dependencies.len(), 1);
    assert!(matches!(ws.dependencies.get("x"), Some(DependencySpec::Simple(v)) if v == "2"));
    let out = ws.to_dto();
    assert_eq!(out.members, vec!["a".to_string()]);
}
