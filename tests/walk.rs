use deadlinks::walk::{has_docs, is_html_file, page_targets};

fn strings(list: &[&str]) -> Vec<String> {
    list.iter().map(|s| s.to_string()).collect()
}

fn target(crate_types: &str, kind: &str) -> bool {
    has_docs(&strings(&[crate_types]), &strings(&[kind]))
}

#[test]
fn finds_right_docs() {
    assert!(!target("cdylib", "example"));
    assert!(!target("bin", "example"));
    assert!(!target("bin", "test"));
    assert!(!target("bin", "bench"));
    assert!(!target("bin", "custom-build"));

    assert!(target("bin", "bin"));
    assert!(target("dylib", "dylib"));
    assert!(target("rlib", "rlib"));
    assert!(target("lib", "lib"));
    assert!(target("proc-macro", "proc-macro"));
}

#[test]
fn main_finds_right_docs() {
    assert!(!target("cdylib", "example"));
    assert!(!target("bin", "example"));
    assert!(!target("bin", "test"));
    assert!(!target("bin", "bench"));
    assert!(!target("bin", "custom-build"));

    assert!(target("bin", "bin"));
    assert!(target("dylib", "dylib"));
    assert!(target("rlib", "rlib"));
    assert!(target("lib", "lib"));
    assert!(target("proc-macro", "proc-macro"));
}

#[test]
fn html_files() {
    assert!(is_html_file("/t/a.html"));
    assert!(is_html_file("a.b.html"));
    assert!(!is_html_file("/t/.html"));
    assert!(!is_html_file("/t/a.htm"));
    assert!(!is_html_file("/t.html/a"));
    assert!(!is_html_file("/t/a.HTML"));
}

#[test]
fn page_targets_need_absolute_paths() {
    assert!(page_targets("<a href=\"x.html\">x</a>", "relative", "/t/a.html").is_none());
    assert_eq!(
        page_targets("<a href=\"x.html\">x</a>", "/t", "/t/a.html"),
        Some(vec!["file:///t/x.html".to_string()])
    );
}

#[test]
fn page_without_links_has_no_targets() {
    assert_eq!(page_targets("<p>no links</p>", "/t", "/t/a.html"), Some(vec![]));
}
