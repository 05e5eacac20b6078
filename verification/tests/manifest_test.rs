//! Edits of a manifest's text: dependencies, workspace dependencies and members.

use sinter::config::manifest::{apply_edit, edit_manifest, ManifestEdit, ManifestError};
use sinter::deps::add::plan_add_dependency;
use toml_edit::DocumentMut;

fn dep(key: &str, version: &str) -> ManifestEdit {
    ManifestEdit::Dependency { key: key.to_string(), version: version.to_string() }
}

fn ws_dep(key: &str, version: &str) -> ManifestEdit {
    ManifestEdit::WorkspaceDependency { key: key.to_string(), version: version.to_string() }
}

fn member(path: &str) -> ManifestEdit {
    ManifestEdit::Member { path: path.to_string() }
}

fn reparse(text: &str) -> DocumentMut {
    text.parse::<DocumentMut>().expect("the edited manifest is a TOML document")
}

#[test]
fn dependency_added_to_new_table() {
    let text = "[package]\nname = \"demo\"\nversion = \"0.1.0\"\n";
    let out = edit_manifest(text, &dep("org.typelevel:cats-core", "2.10.0")).ok().unwrap();
    let doc = reparse(&out);
    assert_eq!(doc["dependencies"]["org.typelevel:cats-core"].as_str(), Some("2.10.0"));
    assert_eq!(doc["package"]["name"].as_str(), Some("demo"));
    assert!(out.starts_with("[package]\nname = \"demo\""));
}

#[test]
fn dependency_replaces_version_and_keeps_others() {
    let text = "[package]\nname = \"demo\"\n\n[dependencies]\n\"a:b\" = \"1.0\"\n\"c:d\" = \"2.0\"\n";
    let out = edit_manifest(text, &dep("a:b", "1.5")).ok().unwrap();
    let doc = reparse(&out);
    assert_eq!(doc["dependencies"]["a:b"].as_str(), Some("1.5"));
    assert_eq!(doc["dependencies"]["c:d"].as_str(), Some("2.0"));
}

#[test]
fn inline_dependencies_table_is_left_alone() {
    let text = "dependencies = { \"a:b\" = \"1.0\" }\n";
    let out = edit_manifest(text, &dep("c:d", "3")).ok().unwrap();
    assert_eq!(out, text);
}

#[test]
fn workspace_dependency_added() {
    let text = "[workspace]\nmembers = [\"core\"]\n";
    let out = edit_manifest(text, &ws_dep("g:a", "0.3")).ok().unwrap();
    let doc = reparse(&out);
    assert_eq!(doc["workspace"]["dependencies"]["g:a"].as_str(), Some("0.3"));
    assert_eq!(doc["workspace"]["members"][0].as_str(), Some("core"));
}

#[test]
fn workspace_dependency_makes_workspace_table() {
    let out = edit_manifest("", &ws_dep("g:a", "0.3")).ok().unwrap();
    let doc = reparse(&out);
    assert_eq!(doc["workspace"]["dependencies"]["g:a"].as_str(), Some("0.3"));
}

#[test]
fn member_appended() {
    let text = "[workspace]\nmembers = [\"core\"]\n";
    let out = edit_manifest(text, &member("app")).ok().unwrap();
    let doc = reparse(&out);
    let members = doc["workspace"]["members"].as_array().unwrap();
    let listed: Vec<&str> = members.iter().map(|v| v.as_str().unwrap()).collect();
    assert_eq!(listed, vec!["core", "app"]);
}

#[test]
fn member_array_made_where_missing() {
    let out = edit_manifest("[package]\nname = \"x\"\n", &member("lib")).ok().unwrap();
    let doc = reparse(&out);
    assert_eq!(doc["workspace"]["members"][0].as_str(), Some("lib"));
}

#[test]
fn member_listed_already_is_refused() {
    let text = "[workspace]\nmembers = [\"core\", \"app\"]\n";
    match edit_manifest(text, &member("app")) {
        Err(ManifestError::Refused(msg)) => assert_eq!(msg, "Member 'app' already exists in workspace"),
        _ => panic!("expected a refusal"),
    }
}

#[test]
fn text_that_is_no_toml_is_refused() {
    match edit_manifest("[package\nname = ", &dep("a:b", "1")) {
        Err(ManifestError::Parse(_)) => {}
        _ => panic!("expected a parse error"),
    }
}

#[test]
fn apply_edit_on_a_document() {
    let mut doc = "[workspace]\nmembers = []\n".parse::<DocumentMut>().unwrap();
    assert!(apply_edit(&mut doc, &member("m1")).is_ok());
    assert!(apply_edit(&mut doc, &member("m2")).is_ok());
    assert_eq!(apply_edit(&mut doc, &member("m1")).unwrap_err(), "Member 'm1' already exists in workspace");
    let members = doc["workspace"]["members"].as_array().unwrap();
    assert_eq!(members.len(), 2);
}

#[test]
fn recording_a_dependency_twice_is_recording_it_once() {
    let text = "[package]\nname = \"demo\"\n";
    let once = edit_manifest(text, &dep("a:b", "1.0")).ok().unwrap();
    let twice = edit_manifest(&once, &dep("a:b", "1.0")).ok().unwrap();
    let entries = |text: &str| -> Vec<(String, String)> {
        let doc = reparse(text);
        doc["dependencies"]
            .as_table()
            .unwrap()
            .iter()
            .map(|(k, v)| (k.to_string(), v.as_str().unwrap().to_string()))
            .collect()
    };
    assert_eq!(entries(&once), entries(&twice));
    assert_eq!(entries(&twice), vec![("a:b".to_string(), "1.0".to_string())]);
    assert_eq!(reparse(&twice)["package"]["name"].as_str(), Some("demo"));
}

#[test]
fn added_member_is_refused_the_second_time() {
    let once = edit_manifest("", &member("svc")).ok().unwrap();
    match edit_manifest(&once, &member("svc")) {
        Err(ManifestError::Refused(msg)) => assert_eq!(msg, "Member 'svc' already exists in workspace"),
        _ => panic!("expected a refusal"),
    }
}

#[test]
fn planned_dependency_is_recorded_in_its_table() {
    let plan = plan_add_dependency("org.typelevel::cats-core:2.10.0", "3.3.1", false).ok().unwrap();
    let out = edit_manifest("[package]\nname = \"p\"\n", &plan.manifest_edit()).ok().unwrap();
    assert_eq!(reparse(&out)["dependencies"][plan.key.as_str()].as_str(), Some(plan.version.as_str()));

    let plan = plan_add_dependency("com.google.guava:guava:33.0.0-jre", "3.3.1", true).ok().unwrap();
    let out = edit_manifest("[workspace]\nmembers = []\n", &plan.manifest_edit()).ok().unwrap();
    assert_eq!(reparse(&out)["workspace"]["dependencies"]["com.google.guava:guava"].as_str(), Some("33.0.0-jre"));
}

fn remove(path: &str) -> ManifestEdit {
    ManifestEdit::RemoveMember { path: path.to_string() }
}

fn listed_members(text: &str) -> Vec<String> {
    reparse(text)["workspace"]["members"]
        .as_array()
        .unwrap()
        .iter()
        .map(|v| v.as_str().unwrap().to_string())
        .collect()
}

#[test]
fn member_taken_out() {
    let text = "[workspace]\nmembers = [\"core\", \"app\", \"web\"]\n";
    let out = edit_manifest(text, &remove("app")).ok().unwrap();
    assert_eq!(listed_members(&out), vec!["core", "web"]);
}

#[test]
fn member_not_listed_is_not_taken_out() {
    for text in ["[workspace]\nmembers = [\"core\"]\n", "[package]\nname = \"p\"\n", ""] {
        match edit_manifest(text, &remove("app")) {
            Err(ManifestError::Refused(msg)) => assert_eq!(msg, "Member 'app' is not in workspace"),
            _ => panic!("expected a refusal"),
        }
    }
}

#[test]
fn removing_an_added_member_gives_the_members_back() {
    let text = "[workspace]\nmembers = [\"core\"]\n";
    let added = edit_manifest(text, &member("app")).ok().unwrap();
    assert_eq!(listed_members(&added), vec!["core", "app"]);
    let back = edit_manifest(&added, &remove("app")).ok().unwrap();
    assert_eq!(listed_members(&back), vec!["core"]);
}

#[test]
fn java_latest_is_refused_before_any_edit() {
    assert!(plan_add_dependency("com.google.guava:guava:latest", "3.3.1", false).is_err());
}

#[test]
fn member_removed_by_its_slot_past_an_empty_slot() {
    let mut doc = "[workspace]\nmembers = [\"a\", \"b\", \"c\"]\n".parse::<DocumentMut>().unwrap();
    doc["workspace"]["members"][0] = toml_edit::Item::None;
    assert!(apply_edit(&mut doc, &remove("b")).is_ok());
    let members = doc["workspace"]["members"].as_array().unwrap();
    assert_eq!(members.len(), 2);
    assert!(members.get(0).is_none());
    assert_eq!(members.get(1).and_then(|v| v.as_str()), Some("c"));
}
