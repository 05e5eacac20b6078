//! Text helpers, the path algebra, path checks and templates.

use sinter::text::{
    concat3, contains_str, count_char, find_from_exec, first_word, is_blank, join_strings,
    last_word, replace_str, rfind_char, split_str, starts_with_str, substring, trim,
    trim_start_matches,
};
use sinter::toolkit::file::ProjectCreator;
use sinter::toolkit::os::{components_of, walk_dirs, walk_files, PathComponent, PathWrapper, WalkEntry};
use sinter::toolkit::path::paths::{
    bsp_templates, main_template, plugin_template_file, project_template, template_file,
    templates_candidate, templates_fallback, workspace_template,
};
use sinter::toolkit::path::validation::{is_safe_path, is_within_dir, normalize_path};
use sinter::toolkit::path::PathManager;
use sinter::toolkit::template::{fill_all_text, fill_text, Template, TemplateOwned};

#[test]
fn whitespace_and_alphanumeric_classes() {
    // White space, as the character classes decide it, is what trimming removes.
    assert_eq!(trim(" \n\u{3000}a\t"), "a");
    assert_eq!(trim("\u{a0}b\u{2003}"), "b");
    assert_eq!(trim("-x-"), "-x-");
    // Alphanumeric characters, with `.`, `-` and `_`, are what versions may hold.
    assert!(sinter::models::is_valid_version("z7.版-1_2"));
    assert!(!sinter::models::is_valid_version("1+2"));
    assert!(!sinter::models::is_valid_version("a b"));
}

#[test]
fn last_words() {
    assert_eq!(last_word("scala-cli version 1.5.4\n"), Some("1.5.4".to_string()));
    assert_eq!(last_word("single"), Some("single".to_string()));
    assert_eq!(last_word(" \t "), None);
}

#[test]
fn trim_strips_both_ends() {
    assert_eq!(trim("  a b \t\n"), "a b");
    assert_eq!(trim("\u{3000}x\u{3000}"), "x");
    assert_eq!(trim("   "), "");
    assert!(is_blank(" \t "));
    assert!(!is_blank(" x "));
}

#[test]
fn search_helpers() {
    assert!(contains_str("org::cats", "::"));
    assert!(!contains_str("org:cats", "::"));
    assert!(starts_with_str("sbt:../p", "sbt:"));
    assert_eq!(find_from_exec("a::b::c", "::", 0), Some(1));
    assert_eq!(find_from_exec("a::b::c", "::", 2), Some(4));
    assert_eq!(find_from_exec("abc", "::", 0), None);
    assert_eq!(rfind_char("a.b.c", '.'), Some(3));
    assert_eq!(count_char("a:b:c", ':'), 2);
    assert_eq!(substring("abcdef", 1, 4), "bcd");
    assert_eq!(concat3("a", "-", "b"), "a-b");
}

#[test]
fn split_join_replace() {
    assert_eq!(split_str("a:b::c", ":"), vec!["a", "b", "", "c"]);
    assert_eq!(split_str("abc", ":"), vec!["abc"]);
    assert_eq!(join_strings(&vec!["x".to_string(), "y".to_string()], ", "), "x, y");
    assert_eq!(join_strings(&Vec::new(), ", "), "");
    assert_eq!(replace_str("a{n}b{n}", "{n}", "Z"), "aZbZ");
    assert_eq!(replace_str("aaa", "aa", "b"), "ba");
}

#[test]
fn words_and_prefixes() {
    assert_eq!(first_word("  org:a:1 (evicted)"), "org:a:1");
    assert_eq!(trim_start_matches("[info] [info] x", "[info] "), "x");
}

#[test]
fn path_join_and_parts() {
    let p = PathWrapper::new("/ws/app");
    assert_eq!(p.join("src").as_path(), "/ws/app/src");
    assert_eq!(p.join("/abs").as_path(), "/abs");
    assert_eq!(PathWrapper::new("").join("x").as_path(), "x");
    assert_eq!(PathWrapper::new("a/").join("b").as_path(), "a/b");
    assert_eq!(p.parent().map(|x| x.to_string_lossy()), Some("/ws".to_string()));
    assert_eq!(PathWrapper::new("/").parent().map(|x| x.to_string_lossy()), None);
    assert_eq!(PathWrapper::new("a").parent().map(|x| x.to_string_lossy()), Some(String::new()));
    assert_eq!(PathWrapper::new("src/Main.scala").file_name(), Some("Main.scala".to_string()));
    assert_eq!(PathWrapper::new("src/Main.scala").extension(), Some("scala".to_string()));
    assert_eq!(PathWrapper::new("src/.hidden").extension(), None);
    assert_eq!(PathWrapper::new("..").file_name(), None);
}

#[test]
fn path_components_normalize_separators() {
    let cs = components_of("/a//b/./c/");
    assert_eq!(
        cs,
        vec![
            PathComponent::RootDir,
            PathComponent::Normal("a".into()),
            PathComponent::Normal("b".into()),
            PathComponent::Normal("c".into()),
        ]
    );
    let rel = components_of("./x/../y");
    assert_eq!(
        rel,
        vec![
            PathComponent::CurDir,
            PathComponent::Normal("x".into()),
            PathComponent::ParentDir,
            PathComponent::Normal("y".into()),
        ]
    );
}

#[test]
fn path_prefixes() {
    let p = PathWrapper::new("/ws/app/src");
    let base = PathWrapper::new("/ws");
    assert!(p.starts_with(&base));
    assert!(!PathWrapper::new("/wsx/app").starts_with(&base));
    assert_eq!(p.relative_to(&base).as_path(), "app/src");
    assert_eq!(PathWrapper::new("/other").relative_to(&base).as_path(), "/other");
}

#[test]
fn walk_filters_keep_order() {
    let entries = vec![
        WalkEntry { path: PathWrapper::new("d"), is_file: false, is_dir: true },
        WalkEntry { path: PathWrapper::new("d/a.scala"), is_file: true, is_dir: false },
        WalkEntry { path: PathWrapper::new("d/e"), is_file: false, is_dir: true },
        WalkEntry { path: PathWrapper::new("d/e/b.scala"), is_file: true, is_dir: false },
    ];
    let files: Vec<String> = walk_files(&entries).iter().map(|p| p.to_string_lossy()).collect();
    assert_eq!(files, vec!["d/a.scala", "d/e/b.scala"]);
    let dirs: Vec<String> = walk_dirs(&entries).iter().map(|p| p.to_string_lossy()).collect();
    assert_eq!(dirs, vec!["d", "d/e"]);
    let root = PathManager::new("d");
    assert_eq!(root.walk(&entries).len(), 4);
    assert_eq!(root.walk_files(&entries)[1].as_path(), "d/e/b.scala");
    assert_eq!(root.walk_dirs(&entries)[0].as_path(), "d");
}

#[test]
fn path_manager_operations() {
    let m = PathManager::new("/ws/app");
    assert_eq!(m.join("x.scala").as_path(), "/ws/app/x.scala");
    assert_eq!(m.parent().map(|p| p.to_string_lossy()), Some("/ws".to_string()));
    assert_eq!(m.file_name(), Some("app".to_string()));
    assert_eq!(PathManager::new("a/b.txt").extension(), Some("txt".to_string()));
    assert_eq!(m.relative_to(&PathManager::new("/ws")).as_path(), "app");
    assert!(m.starts_with(&PathManager::new("/ws")));
    assert_eq!(m.to_path_buf().as_path(), "/ws/app");
    assert_eq!(m.inner().as_path(), "/ws/app");
}

#[test]
fn path_checks() {
    assert!(is_safe_path(&PathManager::new("src/main")));
    assert!(!is_safe_path(&PathManager::new("../up")));
    assert!(!is_safe_path(&PathManager::new("/abs")));
    assert_eq!(normalize_path(&PathManager::new("/a/./b/../c")).as_path(), "a/c");
    assert_eq!(normalize_path(&PathManager::new("../x")).as_path(), "x");
    assert!(is_within_dir(&PathManager::new("/a/b/../c"), &PathManager::new("/a")));
    assert!(is_within_dir(&PathManager::new("/a/../x"), &PathManager::new("/a")));
    assert!(!is_within_dir(&PathManager::new("/b/x"), &PathManager::new("/a")));
}

#[test]
fn template_locations() {
    let dir = PathManager::new("/t");
    assert_eq!(template_file(&dir, "x.template").as_path(), "/t/x.template");
    assert_eq!(project_template(&dir).as_path(), "/t/project.toml.template");
    assert_eq!(main_template(&dir).as_path(), "/t/main.scala.template");
    assert_eq!(workspace_template(&dir).as_path(), "/t/workspace.project.toml.template");
    assert_eq!(bsp_templates(&dir).len(), 3);
    assert_eq!(templates_fallback().as_path(), "templates");
    assert_eq!(
        templates_candidate(&PathManager::new("/bin")).as_path(),
        "/bin/../../crates/sinter-core/templates"
    );
    assert_eq!(
        plugin_template_file(&PathManager::new("/m"), "pom.xml.template").as_path(),
        "/m/../sinter-plugins/templates/pom.xml.template"
    );
}

#[test]
fn template_replacement() {
    let t = Template::new("name = \"{name}\" # {name}");
    assert_eq!(t.replace("name", "demo").into_string(), "name = \"demo\" # demo");
    let all = t.replace_all(&vec![("name", "{other}"), ("other", "x")]);
    assert_eq!(all.as_str(), "name = \"x\" # x");
    let mut owned = TemplateOwned::from_string("v={v}".to_string());
    owned.replace("v", "1");
    assert_eq!(owned.as_str(), "v=1");
    owned.replace_all(&vec![("w", "2")]);
    assert_eq!(owned.into_string(), "v=1");
    assert_eq!(fill_text("{k}{k}", "k", "ab"), "abab");
    assert_eq!(fill_all_text("no placeholders", &vec![("k", "v")]), "no placeholders");
}

#[test]
fn project_creator_paths_and_content() {
    let c = ProjectCreator::new("/p");
    assert_eq!(c.path_of("project.toml").as_path(), "/p/project.toml");
    let dirs: Vec<String> = c.dir_paths(&vec!["src/main/scala", "lib"]).iter().map(|d| d.to_string_lossy()).collect();
    assert_eq!(dirs, vec!["/p/src/main/scala", "/p/lib"]);
    assert_eq!(c.template_content("{a}-{b}", &vec![("a", "1"), ("b", "2")]), "1-2");
}

#[test]
fn template_conversions_and_chaining() {
    let t: Template = "hi {who}".into();
    assert_eq!(t.replace("who", "you").as_str(), "hi you");
    let mut o: TemplateOwned = "x={a}{b}".to_string().into();
    o.replace("a", "1").replace("b", "2");
    assert_eq!(o.as_str(), "x=12");
    o.replace_all(&vec![("c", "3")]).replace("d", "4");
    assert_eq!(o.into_string(), "x=12");
}

#[test]
fn trim_uses_the_unicode_white_space_class() {
    for c in ['\t', '\n', '\u{b}', '\u{c}', '\r', ' ', '\u{85}', '\u{a0}', '\u{1680}', '\u{2000}', '\u{200a}', '\u{2028}', '\u{2029}', '\u{202f}', '\u{205f}', '\u{3000}'] {
        assert!(c.is_whitespace());
        assert_eq!(trim(&format!("{c}x{c}")), "x");
    }
    for c in ['\u{180e}', '\u{200b}', '\u{feff}', 'a', '\u{1f}'] {
        assert!(!c.is_whitespace());
        assert_eq!(trim(&format!("{c}x")), format!("{c}x"));
    }
}
