use deadlinks::address::{directory_url, file_url, resolve_href};
use deadlinks::html::{parse_a_hrefs, parse_fragments, parse_redirect};
use deadlinks::intra_doc::{broken_intra_doc_links, intra_doc_markers};
use deadlinks::{CheckContext, CheckError};

fn dir(path: &str) -> String {
    directory_url(path).unwrap()
}

fn file(path: &str) -> String {
    file_url(path).unwrap()
}

#[test]
fn test_parse_a_hrefs() {
    let html = r#"
        <!DOCTYPE html>
        <html>
            <body>
                <a href="a.html">a</a>
                <a href="/b/c.html">a</a>
            </body>
        </html>"#;

    let urls = parse_a_hrefs(html, &dir("/base"), &file("/base/test.html"));

    assert!(urls.contains(&file("/base/a.html")));
    assert!(urls.contains(&file("/base/b/c.html")));
}

#[test]
fn test_parse_a_hrefs_in_subdirectory() {
    let html = r#"
        <!DOCTYPE html>
        <html>
            <body>
                <a href="a.html">a</a>
                <a href="/b/c.html">a</a>
                <a href="../d.html">d</a>
            </body>
        </html>"#;

    let urls = parse_a_hrefs(html, &dir("/root"), &file("/root/base/test.html"));

    assert!(urls.contains(&file("/root/base/a.html")));
    assert!(urls.contains(&file("/root/b/c.html")));
    assert!(urls.contains(&file("/root/d.html")));
}

#[test]
fn test_parse_fragments() {
    let html = r#"
        <!DOCTYPE html>
        <html>
            <body>
                <a id="a">a</a>
                <h1 id="h1">h1</h1>
            </body>
        </html>"#;

    let fragments = parse_fragments(html);

    assert!(fragments.contains(&"a".to_string()));
    assert!(fragments.contains(&"h1".to_string()));
}

#[test]
fn directory_url_ends_in_slash() {
    assert_eq!(dir("/base"), "file:///base/");
    assert_eq!(file("/base/a.html"), "file:///base/a.html");
    assert_eq!(directory_url("relative"), None);
}

#[test]
fn repeated_hrefs_give_one_target() {
    let html = r#"<a href="a.html">1</a><a href="a.html">2</a><a href="./a.html">3</a><a href="b.html#x">4</a>"#;
    let urls = parse_a_hrefs(html, &dir("/t"), &file("/t/index.html"));
    assert_eq!(urls, vec!["file:///t/a.html".to_string(), "file:///t/b.html#x".to_string()]);
}

#[test]
fn unresolvable_href_is_dropped() {
    let html = r#"<a href="http://[::1">bad</a><a href="ok.html">ok</a><a name="no-href">x</a>"#;
    let urls = parse_a_hrefs(html, &dir("/t"), &file("/t/index.html"));
    assert_eq!(urls, vec!["file:///t/ok.html".to_string()]);
}

#[test]
fn root_relative_href_is_independent_of_depth() {
    let root = dir("/doc");
    let shallow = resolve_href(&root, &file("/doc/a.html"), "/x.html");
    let deep = resolve_href(&root, &file("/doc/p/q/r/b.html"), "/x.html");
    assert_eq!(shallow, Some("file:///doc/x.html".to_string()));
    assert_eq!(shallow, deep);
    let relative = resolve_href(&root, &file("/doc/p/b.html"), "x.html");
    assert_eq!(relative, Some("file:///doc/p/x.html".to_string()));
}

#[test]
fn other_schemes_resolve_as_written() {
    let root = dir("/doc");
    let page = file("/doc/a.html");
    assert_eq!(resolve_href(&root, &page, "https://example.com/x#y"), Some("https://example.com/x#y".to_string()));
    assert_eq!(resolve_href(&root, &page, "javascript:void(0)"), Some("javascript:void(0)".to_string()));
}

#[test]
fn redirect_page_names_its_target() {
    let html = r#"<!DOCTYPE html><html lang="en"><head><meta http-equiv="refresh" content="0;URL=../../foo/struct.Bar.html"><title>Redirection</title></head><body></body></html>"#;
    assert_eq!(parse_redirect(html), Some("../../foo/struct.Bar.html".to_string()));
    assert_eq!(parse_redirect("<html><body id=\"x\"></body></html>"), None);
}

#[test]
fn intra_doc_marker_is_reported() {
    let html = "<p>See [<code>links</code>] here.</p>";
    let ctx = CheckContext { check_intra_doc_links: true, ..CheckContext::default() };
    let errors = broken_intra_doc_links(html, &ctx);
    assert_eq!(errors.len(), 1);
    assert_eq!(errors[0], CheckError::IntraDocLink("[<code>links</code>]".to_string()));
    assert_eq!(errors[0].message(), "Broken intra-doc link to [<code>links</code>]!");
}

#[test]
fn intra_doc_markers_are_off_by_default() {
    let html = "<p>See [<code>links</code>] here.</p>";
    assert!(broken_intra_doc_links(html, &CheckContext::default()).is_empty());
}

#[test]
fn intra_doc_marker_runs_to_last_close_on_its_line() {
    let html = "a [<code>x</code>] b </code>] c\nd [<code>y</code>] [<code>z\n</code>]";
    let markers = intra_doc_markers(html);
    assert_eq!(markers, vec!["[<code>x</code>] b </code>]".to_string(), "[<code>y</code>]".to_string()]);
}

#[test]
fn absolute_urls_are_normalized() {
    assert_eq!(deadlinks::address::absolute_url("HTTPS://Example.COM"), Some("https://example.com/".to_string()));
    assert_eq!(deadlinks::address::absolute_url("../relative.html"), None);
}

#[test]
fn file_urls_name_decoded_paths() {
    assert_eq!(deadlinks::address::file_path("file:///t/a%20b.html"), Some("/t/a b.html".to_string()));
    assert_eq!(deadlinks::address::scheme("file:///t/a.html"), "file");
    assert_eq!(
        deadlinks::address::split_fragment("https://e.com/p?q=1#frag#more"),
        ("https://e.com/p?q=1".to_string(), Some("frag#more".to_string()))
    );
    assert_eq!(deadlinks::address::split_fragment("https://e.com/p"), ("https://e.com/p".to_string(), None));
}
