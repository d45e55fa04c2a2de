use deadlinks::check::{
    index_path, join_paths, locate_file, page_outcome, parent_dir, plan_check, probe_outcome,
    redirect_file_target, redirect_url_target, HttpReply, PathFacts, Plan,
};
use deadlinks::cache::{is_fragment_available, FragmentCache};
use deadlinks::{CheckContext, CheckError, HttpCheck, IoError, Link};

fn facts(is_file: bool, is_dir: bool, index_is_file: bool) -> PathFacts {
    PathFacts { is_file, is_dir, index_is_file }
}

fn enabled() -> CheckContext {
    CheckContext { check_http: HttpCheck::Enabled, ..CheckContext::default() }
}

#[test]
fn test_file_path() {
    let plan = plan_check("file:///t/tests/html/index.html", &CheckContext::default());
    match plan {
        Plan::InspectFile { path, fragment: None } => {
            assert_eq!(path, "/t/tests/html/index.html");
            assert_eq!(locate_file(&path, &facts(true, false, false)), Ok(path.clone()));
        }
        x => panic!("unexpected plan {:?}", x),
    }
}

#[test]
fn test_directory_path() {
    let plan = plan_check("file:///t/tests/html/", &CheckContext::default());
    match plan {
        Plan::InspectFile { path, fragment: None } => {
            assert_eq!(locate_file(&path, &facts(false, true, true)), Ok("/t/tests/html/index.html".to_string()));
        }
        x => panic!("unexpected plan {:?}", x),
    }
}

fn index_page() -> String {
    r#"<html><body><h1 id="i1">Index</h1></body></html>"#.to_string()
}

#[test]
fn test_is_available_file_path() {
    match plan_check("file:///t/tests/html/index.html#i1", &CheckContext::default()) {
        Plan::InspectFile { path, fragment: Some(f) } => {
            assert_eq!(path, "/t/tests/html/index.html");
            assert_eq!(f, "i1");
            let expanded = locate_file(&path, &facts(true, false, false)).unwrap();
            let mut cache = FragmentCache::with_capacity(10).unwrap();
            let link = Link::File(path.clone());
            assert_eq!(is_fragment_available(&mut cache, &link, &f, || {
                assert_eq!(expanded, "/t/tests/html/index.html");
                Ok(index_page())
            }), Ok(()));
            assert_eq!(cache.check_fragment(&link, &f), Some(Ok(())));
        }
        x => panic!("unexpected plan {:?}", x),
    }
}

#[test]
fn test_is_available_directory_path() {
    match plan_check("file:///t/tests/html/#i1", &CheckContext::default()) {
        Plan::InspectFile { path, fragment: Some(f) } => {
            assert_eq!(f, "i1");
            let expanded = locate_file(&path, &facts(false, true, true)).unwrap();
            assert_eq!(expanded, "/t/tests/html/index.html");
            let mut cache = FragmentCache::with_capacity(10).unwrap();
            let link = Link::File(path.clone());
            assert_eq!(is_fragment_available(&mut cache, &link, &f, || Ok(index_page())), Ok(()));
            assert_eq!(cache.check_fragment(&link, &f), Some(Ok(())));
        }
        x => panic!("unexpected plan {:?}", x),
    }
}

#[test]
fn test_missing_dir_index_fragment() {
    match plan_check("file:///t/tests/html/missing_index/#i1", &CheckContext::default()) {
        Plan::InspectFile { path, .. } => match locate_file(&path, &facts(false, true, false)) {
            Err(CheckError::File(path)) => {
                assert!(std::path::Path::new(&path).ends_with("tests/html/missing_index"))
            }
            x => panic!("Expected to report a missing file, got {:?}", x),
        },
        x => panic!("unexpected plan {:?}", x),
    }
}

#[test]
fn test_disabling_fragment_checks_file() {
    let ctx = CheckContext { check_fragments: false, ..CheckContext::default() };
    match plan_check("file:///t/tests/html/anchors.html#nonexistent", &ctx) {
        Plan::InspectFile { path, fragment } => {
            assert_eq!(fragment, None);
            assert_eq!(locate_file(&path, &facts(true, false, false)), Ok("/t/tests/html/anchors.html".to_string()));
        }
        x => panic!("unexpected plan {:?}", x),
    }
}

#[test]
fn test_http_check() {
    let url = "http://127.0.0.1:1234/test_http_check";
    match plan_check(url, &enabled()) {
        Plan::Probe { url: u } => {
            assert_eq!(u, url);
            assert_eq!(probe_outcome(&u, &HttpReply::Received(200, String::new())), Ok(()));
        }
        x => panic!("unexpected plan {:?}", x),
    }
}

#[test]
fn test_http_check_fragment() {
    let url = "http://127.0.0.1:1234/test_http_check_fragment#r1";
    match plan_check(url, &enabled()) {
        Plan::FetchPage { link, page_url, fragment } => {
            assert_eq!(page_url, "http://127.0.0.1:1234/test_http_check_fragment");
            assert_eq!(fragment, "r1");
            let body = "<!DOCTYPE html>\n<html>\n<body id=\"r1\" />\n</html>".to_string();
            let page = page_outcome(&page_url, HttpReply::Received(200, body));
            let mut cache = FragmentCache::with_capacity(10).unwrap();
            cache.store_page(&link, page);
            assert_eq!(cache.check_fragment(&link, &fragment), Some(Ok(())));
        }
        x => panic!("unexpected plan {:?}", x),
    }
}

#[test]
fn test_missing_http_fragment() {
    let url = "http://127.0.0.1:1234/test_missing_http_fragment#missing";
    match plan_check(url, &enabled()) {
        Plan::FetchPage { link, page_url, fragment } => {
            let page = page_outcome(&page_url, HttpReply::Received(200, "<!DOCTYPE html>\n<html />".to_string()));
            let mut cache = FragmentCache::with_capacity(10).unwrap();
            cache.store_page(&link, page);
            match cache.check_fragment(&link, &fragment) {
                Some(Err(CheckError::Fragment(Link::Http(url), fragment, None))) => {
                    assert_eq!("http://127.0.0.1:1234/test_missing_http_fragment#missing", url);
                    assert_eq!("missing", fragment);
                }
                x => panic!("Expected to report missing anchor, got {:?}", x),
            }
        }
        x => panic!("unexpected plan {:?}", x),
    }
}

#[test]
fn test_disabling_fragment_checks_http() {
    let ctx = CheckContext { check_http: HttpCheck::Enabled, check_fragments: false, ..CheckContext::default() };
    let url = "http://127.0.0.1:1234/test_disabling_fragment_checks_http#missing";
    match plan_check(url, &ctx) {
        Plan::Probe { url: u } => {
            assert_eq!(u, url);
            assert_eq!(probe_outcome(&u, &HttpReply::Received(200, String::new())), Ok(()));
        }
        x => panic!("unexpected plan {:?}", x),
    }
}

#[test]
fn empty_fragment_is_never_fetched() {
    assert!(matches!(plan_check("https://example.com/a#", &enabled()), Plan::Probe { .. }));
    match plan_check("file:///t/a.html#", &CheckContext::default()) {
        Plan::InspectFile { fragment, .. } => assert_eq!(fragment, None),
        x => panic!("unexpected plan {:?}", x),
    }
}

#[test]
fn ignored_http_is_accepted_without_request() {
    let ctx = CheckContext::default();
    assert!(matches!(plan_check("http://example.com/x", &ctx), Plan::Done(Ok(()))));
    assert!(matches!(plan_check("https://example.com/x#frag", &ctx), Plan::Done(Ok(()))));
}

#[test]
fn forbidden_http_is_reported_except_trusted_host() {
    let ctx = CheckContext { check_http: HttpCheck::Forbidden, ..CheckContext::default() };
    match plan_check("http://example.com/x", &ctx) {
        Plan::Done(Err(e)) => {
            assert_eq!(e, CheckError::HttpForbidden("http://example.com/x".to_string()));
            assert_eq!(e.message(), "HTTP checking is forbidden for http://example.com/x!");
        }
        x => panic!("unexpected plan {:?}", x),
    }
    assert!(matches!(plan_check("https://doc.rust-lang.org/std/", &ctx), Plan::Done(Ok(()))));
}

#[test]
fn trusted_host_is_not_requested_when_checking_http() {
    let ctx = enabled();
    assert!(matches!(plan_check("https://doc.rust-lang.org/std/", &ctx), Plan::Done(Ok(()))));
    assert!(matches!(plan_check("https://doc.rust-lang.org/std/index.html#missing", &ctx), Plan::Done(Ok(()))));
    assert!(matches!(plan_check("https://docs.rs/x", &ctx), Plan::Probe { .. }));
}

#[test]
fn other_schemes_are_accepted() {
    let ctx = enabled();
    assert!(matches!(plan_check("javascript:void(0)", &ctx), Plan::Done(Ok(()))));
    assert!(matches!(plan_check("mailto:a@example.com", &ctx), Plan::Done(Ok(()))));
}

#[test]
fn directory_link_with_or_without_slash() {
    assert_eq!(index_path("/t/dir"), "/t/dir/index.html");
    assert_eq!(index_path("/t/dir/"), "/t/dir/index.html");
    assert_eq!(locate_file("/t/dir", &facts(false, true, false)), Err(CheckError::File("/t/dir".to_string())));
    assert_eq!(locate_file("/t/none", &facts(false, false, false)), Err(CheckError::File("/t/none".to_string())));
}

#[test]
fn probe_failures() {
    let url = "https://example.com/x";
    assert_eq!(probe_outcome(url, &HttpReply::Received(404, String::new())), Err(CheckError::Http(url.to_string())));
    assert_eq!(
        probe_outcome(url, &HttpReply::Failed("dns error".to_string())),
        Err(CheckError::Io(IoError::HttpFetch(url.to_string(), "dns error".to_string())))
    );
    assert_eq!(probe_outcome(url, &HttpReply::Received(204, String::new())), Ok(()));
    assert_eq!(page_outcome(url, HttpReply::Received(200, "body".to_string())), Ok("body".to_string()));
    assert_eq!(page_outcome(url, HttpReply::Received(500, "oops".to_string())), Err(CheckError::Http(url.to_string())));
    assert_eq!(CheckError::Http(url.to_string()).message(), "Linked URL https://example.com/x does not exist!");
}

#[test]
fn paths_join_like_std() {
    assert_eq!(parent_dir("/a/b/c.html"), "/a/b");
    assert_eq!(parent_dir("/c.html"), "/");
    assert_eq!(parent_dir("c.html"), "");
    assert_eq!(join_paths("/a/b", "../x.html"), "/a/b/../x.html");
    assert_eq!(join_paths("/a/b/", "x.html"), "/a/b/x.html");
    assert_eq!(join_paths("/a/b", "/abs.html"), "/abs.html");
}

#[test]
fn redirects_are_followed_one_step() {
    let page = r#"<html><head><meta http-equiv="refresh" content="0;URL=../foo/struct.Bar.html"></head></html>"#;
    assert_eq!(redirect_file_target("/d/x/struct.Bar.html", page), Some("/d/x/../foo/struct.Bar.html".to_string()));
    assert_eq!(redirect_url_target(page), None);
    let absolute = r#"<meta http-equiv="refresh" content="0;URL=https://example.com/b.html">"#;
    assert_eq!(redirect_url_target(absolute), Some("https://example.com/b.html".to_string()));
    assert_eq!(redirect_file_target("/d/a.html", "<p>plain</p>"), None);
}

#[test]
fn checking_twice_plans_the_same() {
    let ctx = enabled();
    for url in ["file:///t/a.html#x", "https://example.com/y", "https://example.com/y#z", "ftp://h/f"] {
        assert_eq!(format!("{:?}", plan_check(url, &ctx)), format!("{:?}", plan_check(url, &ctx)));
    }
}
