//! The library's laws, each on concrete values.

use sinter::config::ancestors;
use sinter::deps::add::{parse_dep_spec, DepSpecError};
use sinter::deps::manager::merge_transitive;
use sinter::deps::{get_dependencies, get_dependencies_with_workspace, Dependency};
use sinter::models::{
    DependencyDetail, DependencyMap, DependencySpec, Library, Package, PackageDto, Project, Workspace,
};
use sinter::toolkit::os::PathWrapper;
use sinter::toolkit::path::validation::normalize_path;
use sinter::toolkit::path::PathManager;
use sinter::toolkit::template::Template;

#[test]
fn law_dependency_spec_transfer_roundtrip_values() {
    let specs = vec![
        DependencySpec::Simple("g:a:1".into()),
        DependencySpec::Detailed(DependencyDetail { version: Some("2".into()), workspace: false }),
        DependencySpec::Detailed(DependencyDetail { version: None, workspace: true }),
    ];
    for s in specs {
        let back: DependencySpec = s.to_dto().into();
        assert_eq!(back.get_version(), s.get_version());
        assert_eq!(back.is_workspace_dependency(), s.is_workspace_dependency());
        assert_eq!(back.to_coordinate(), s.to_coordinate());
    }
}

#[test]
fn law_package_transfer_roundtrip_values() {
    let p = Package {
        name: "n".into(),
        version: "1".into(),
        main: Some("App".into()),
        scala_version: "3.1".into(),
        source_dir: "s".into(),
        target_dir: "t".into(),
        test_dir: "u".into(),
        backend: "sbt".into(),
    };
    let dto: PackageDto = p.to_dto();
    let back: Package = dto.into();
    assert_eq!(back.name, p.name);
    assert_eq!(back.main, p.main);
    assert_eq!(back.scala_version, p.scala_version);
    assert_eq!(back.backend, p.backend);
    assert_eq!(back.test_dir, p.test_dir);
}

#[test]
fn law_sbt_coordinate_reads_back() {
    for path in ["../lib", "/abs/p", "x"] {
        let d = Dependency::Sbt { path: path.to_string() };
        let back = Dependency::from_toml_key(&d.coord(), "9.9");
        assert_eq!(back.sbt_path(), Some(path));
    }
}

#[test]
fn law_library_has_exactly_one_type() {
    let specs = vec![
        DependencySpec::Simple("g:a:1".into()),
        DependencySpec::Detailed(DependencyDetail { version: Some("2".into()), workspace: false }),
        DependencySpec::Detailed(DependencyDetail { version: None, workspace: true }),
        DependencySpec::Detailed(DependencyDetail { version: None, workspace: false }),
        DependencySpec::Detailed(DependencyDetail { version: Some("1".into()), workspace: true }),
    ];
    for s in specs {
        let ws = s.is_workspace_dependency();
        let l = Library::from_dependency_spec("x".into(), s);
        let n = [l.is_workspace_library(), l.is_external_library(), l.is_local_library()]
            .iter()
            .filter(|b| **b)
            .count();
        assert_eq!(n, 1);
        if ws {
            assert!(l.is_workspace_library());
        }
    }
}

#[test]
fn law_merged_dependencies_are_unique_and_complete() {
    let g = |a: &str| Dependency::Maven { group: "g".into(), artifact: a.into(), version: "1".into(), is_scala: false };
    let deps = vec![g("a"), Dependency::Sbt { path: "p".into() }, g("b")];
    let trees = vec![None, Some(vec![g("b"), g("a"), g("c")]), None];
    let merged: Vec<String> = merge_transitive(&deps, trees).iter().map(|d| d.coord()).collect();
    assert_eq!(merged, vec!["g:a:1", "g:b:1", "g:c:1"]);
}

#[test]
fn law_normalized_paths_hold_only_names() {
    let n = normalize_path(&PathManager::new("/./a/../../b/./c/.."));
    assert_eq!(n.as_path(), "b");
    for c in n.components() {
        assert!(matches!(c, sinter::toolkit::os::PathComponent::Normal(_)));
    }
}

#[test]
fn law_template_without_placeholder_is_unchanged() {
    let t = Template::new("plain {text} here");
    assert_eq!(t.replace("name", "x").into_string(), "plain {text} here");
}

#[test]
fn law_relative_to_undoes_join_values() {
    for base in ["/ws", "/ws/", "", "rel/dir", "/", "./x"] {
        for r in ["app", "a/b/c", "../up", "x/../y"] {
            let b = PathWrapper::new(base);
            assert_eq!(b.join(r).relative_to(&b).as_path(), r, "base {:?}, path {:?}", base, r);
        }
    }
}

#[test]
fn law_versions_are_explicit() {
    assert_eq!(parse_dep_spec("g::a:latest", "2.13").unwrap_err(), DepSpecError::VersionRequired);
    assert_eq!(parse_dep_spec("g::a@3:", "2.13").unwrap_err(), DepSpecError::VersionRequired);
    assert_eq!(parse_dep_spec("g:a:latest", "2.13").unwrap_err(), DepSpecError::VersionRequired);
    assert_eq!(parse_dep_spec("com.google.guava:guava:", "2.13").unwrap_err(), DepSpecError::VersionRequired);
    assert_eq!(parse_dep_spec("com.google.guava:guava:31.1-jre", "2.13").unwrap().2, "31.1-jre");
}

#[test]
fn law_workspace_root_only_supplies_deferred_entries() {
    let pkg = || Package {
        name: "p".into(),
        version: "1".into(),
        main: None,
        scala_version: "2.13".into(),
        source_dir: "s".into(),
        target_dir: "t".into(),
        test_dir: "u".into(),
        backend: "scala-cli".into(),
    };
    let mut deps = DependencyMap::new();
    deps.insert("g:a".into(), DependencySpec::Simple("1".into()));
    deps.insert("g:b".into(), DependencySpec::Detailed(DependencyDetail { version: Some("2".into()), workspace: false }));
    let p = Project { root_path: PathWrapper::new("/p"), package: pkg(), dependencies: deps, workspace: None };
    let mut shared = DependencyMap::new();
    shared.insert("g:a".into(), DependencySpec::Simple("9".into()));
    let root = Project {
        root_path: PathWrapper::new("/w"),
        package: pkg(),
        dependencies: DependencyMap::new(),
        workspace: Some(Workspace { root_path: PathWrapper::new("/w"), members: vec!["p".into()], dependencies: shared }),
    };
    let plain: Vec<String> = get_dependencies(&p).iter().map(|d| d.coord()).collect();
    let with_root: Vec<String> = get_dependencies_with_workspace(&p, Some(&root)).iter().map(|d| d.coord()).collect();
    assert_eq!(plain, with_root);
}

#[test]
fn law_normalize_is_idempotent_values() {
    for p in ["/a/./b/../c", "../../x/y", "./a//b/", "", "/", "a/b/../../..", "x/.hidden/../y"] {
        let once = normalize_path(&PathManager::new(p));
        let twice = normalize_path(&once);
        assert_eq!(twice.as_path(), once.as_path(), "path {:?}", p);
    }
}

#[test]
fn law_searched_directories_contain_start_values() {
    for p in ["/home/u/ws/app/src", "rel/a/b", "./x/y", "/a//b/./c", "../up/dir"] {
        let start = PathWrapper::new(p);
        for a in ancestors(&start) {
            assert!(start.starts_with(&a), "{:?} under {:?}", p, a.as_path());
        }
    }
}

#[test]
fn law_validation_by_characters_values() {
    let ok = ["g:a:1.0", "1.2.3-RC_1", "org.x::y:2"];
    let bad = ["", "   ", "g:a:", "g:a:1 0", "ga:1", " :1.0", "g:a:1+2"];
    for s in ok {
        assert!(DependencySpec::Simple(s.into()).validate().is_ok(), "{s}");
    }
    for s in bad {
        assert!(DependencySpec::Simple(s.into()).validate().is_err(), "{s}");
    }
    let both = DependencySpec::Detailed(DependencyDetail { version: Some("1".into()), workspace: true });
    assert!(both.validate().is_err());
}

#[test]
fn law_parent_of_join_values() {
    for (base, name) in [("/a/b", "c"), ("a", "x"), ("/", "etc"), ("rel/dir/", "f.txt")] {
        let joined = PathWrapper::new(base).join(name);
        let parent = joined.parent().unwrap();
        let expected = base.trim_end_matches('/');
        let expected = if expected.is_empty() { "/" } else { expected };
        assert_eq!(parent.as_path(), expected, "{base} + {name}");
    }
}

#[test]
fn law_normalized_text_only_normal_values() {
    for p in ["/./a/../../b/./c/..", "x/./y/../z", "../..", "/"] {
        let n = normalize_path(&PathManager::new(p));
        for c in n.components() {
            assert!(matches!(c, sinter::toolkit::os::PathComponent::Normal(_)), "{p}");
        }
    }
}
