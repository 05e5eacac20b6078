//! What finished tool runs report, and HTTP requests as data.

use sinter::build::runner::{build_outcome, deps_run_outcome, run_file_outcome, RunMode};
use sinter::ide::bsp::scala_cli_version;
use sinter::toolkit::http::{basic_request, HttpMethod, Request};

#[test]
fn file_run_outcomes() {
    let ok = run_file_outcome(RunMode::Lib, true, " built \n", "").unwrap();
    assert_eq!(ok.mode, RunMode::Lib);
    assert_eq!(ok.output, "built");
    assert_eq!(run_file_outcome(RunMode::App, false, "o", "e").unwrap_err(), "scala-cli failed: o\ne");
    assert_eq!(deps_run_outcome(true, "hello\n", "warn").unwrap(), "hello\n");
    assert_eq!(deps_run_outcome(false, "hello", "boom").unwrap_err(), "Failed: boom");
    assert!(build_outcome(true, "ignored").is_ok());
    assert_eq!(build_outcome(false, "error: x").unwrap_err(), "Build failed: error: x");
}

#[test]
fn scala_cli_version_from_output() {
    assert_eq!(scala_cli_version(true, "Scala CLI version: 1.5.4\nScala version: 3.5.0\n"), "3.5.0");
    assert_eq!(scala_cli_version(true, "1.9.1"), "1.9.1");
    assert_eq!(scala_cli_version(true, "   "), "1.11.0");
    assert_eq!(scala_cli_version(false, "1.9.1"), "1.11.0");
}

#[test]
fn request_headers_replace_by_name() {
    let r = Request::new(HttpMethod::Put, "http://h/x".to_string())
        .header("Accept", "text/plain")
        .header("X-Id", "1")
        .header("Accept", "application/json")
        .body("{}".to_string());
    assert_eq!(r.method(), HttpMethod::Put);
    assert_eq!(r.url(), "http://h/x");
    assert_eq!(
        r.headers(),
        &vec![("Accept".to_string(), "application/json".to_string()), ("X-Id".to_string(), "1".to_string())]
    );
    assert_eq!(r.body_text(), Some("{}"));
}

#[test]
fn request_builder() {
    let b = basic_request().header("K", "v");
    assert!(basic_request().build().is_none());
    let req = b.post("http://h/p").body("data".to_string()).build().unwrap();
    assert_eq!(req.method(), HttpMethod::Post);
    assert_eq!(req.url(), "http://h/p");
    assert_eq!(req.headers().len(), 1);
    assert_eq!(req.body_text(), Some("data"));
    let g = basic_request().get("http://h/g").build().unwrap();
    assert_eq!(g.method(), HttpMethod::Get);
    assert!(g.body_text().is_none());
}
