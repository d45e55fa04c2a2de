use deadlinks::cache::FragmentCache;
use deadlinks::cache::is_fragment_available;
use deadlinks::fragment::{fragment_in_ids, missing_line_ids, parse_range};
use deadlinks::text::decimal_string;
use deadlinks::{CheckError, IoError, Link};

fn ids(list: &[&str]) -> Vec<String> {
    list.iter().map(|s| s.to_string()).collect()
}

fn anchors_page() -> String {
    r#"<html><body><h1 id="h1">Title</h1><a id="a1">x</a></body></html>"#.to_string()
}

fn range_page() -> String {
    r#"<html><body><pre><span id="1">1</span><span id="2">2</span><span id="3">3</span><span id="4">4</span><span id="5">5</span></pre></body></html>"#.to_string()
}

fn cached(path: &str, page: String) -> (FragmentCache, Link) {
    let mut cache = FragmentCache::with_capacity(100).unwrap();
    let link = Link::File(path.to_string());
    cache.store_page(&link, Ok(page));
    (cache, link)
}

#[test]
fn test_anchors() {
    let (cache, link) = cached("/t/tests/html/anchors.html", anchors_page());
    assert_eq!(cache.check_fragment(&link, "h1"), Some(Ok(())));
}

#[test]
fn test_hash_fragment() {
    let (cache, link) = cached("/t/tests/html/anchors.html", anchors_page());
    assert_eq!(cache.check_fragment(&link, ""), Some(Ok(())));
}

#[test]
fn test_missing_anchors() {
    let (cache, link) = cached("/t/tests/html/anchors.html", anchors_page());
    match cache.check_fragment(&link, "nonexistent") {
        Some(Err(CheckError::Fragment(Link::File(path), fragment, None))) => {
            assert!(path.ends_with("tests/html/anchors.html"));
            assert_eq!("nonexistent", fragment);
        }
        x => panic!("Expected to report missing anchor, got {:?}", x),
    }
}

#[test]
fn test_range_anchor() {
    let (cache, link) = cached("/t/tests/html/range.html", range_page());
    assert_eq!(cache.check_fragment(&link, "2-4"), Some(Ok(())));
}

#[test]
fn test_missing_range_anchor() {
    let (cache, link) = cached("/t/tests/html/range.html", range_page());
    match cache.check_fragment(&link, "4-6") {
        Some(Err(CheckError::Fragment(Link::File(path), fragment, Some(missing_parts)))) => {
            assert!(path.ends_with("tests/html/range.html"));
            assert_eq!("4-6", fragment);
            assert_eq!(missing_parts.len(), 1);
            assert!(missing_parts.contains(&"6".to_string()));
        }
        x => panic!("Expected to report missing range anchor, got {:?}", x),
    }
}

#[test]
fn range_against_ids_two_to_five_misses_six() {
    let link = Link::File("/t/src.html".to_string());
    let r = fragment_in_ids(&link, "4-6", &ids(&["2", "3", "4", "5"]));
    assert_eq!(r, Err(CheckError::Fragment(link, "4-6".to_string(), Some(vec!["6".to_string()]))));
}

#[test]
fn fragment_message_names_fragment_and_link() {
    let link = Link::File("a.html".to_string());
    let r = fragment_in_ids(&link, "y", &ids(&["x"]));
    let e = r.unwrap_err();
    assert_eq!(e.message(), "Fragment #y at a.html does not exist!");
    let ranged = CheckError::Fragment(link, "1-3".to_string(), Some(ids(&["2", "3"])));
    assert_eq!(ranged.message(), "Fragments #2, #3 as expected by ranged fragment #1-3 at a.html do not exist!");
}

#[test]
fn reversed_range_asks_for_nothing() {
    let link = Link::File("a.html".to_string());
    assert_eq!(fragment_in_ids(&link, "6-4", &ids(&[])), Ok(()));
}

#[test]
fn literal_range_id_wins() {
    let link = Link::File("a.html".to_string());
    assert_eq!(fragment_in_ids(&link, "7-9", &ids(&["7-9"])), Ok(()));
}

#[test]
fn range_parsing() {
    assert_eq!(parse_range("4-6"), Some((4, 6)));
    assert_eq!(parse_range("007-10"), Some((7, 10)));
    assert_eq!(parse_range("2147483647-2147483647"), Some((2147483647, 2147483647)));
    assert_eq!(parse_range("2147483648-1"), None);
    assert_eq!(parse_range("-4"), None);
    assert_eq!(parse_range("4-"), None);
    assert_eq!(parse_range("4-6-8"), None);
    assert_eq!(parse_range("a-6"), None);
    assert_eq!(parse_range("46"), None);
}

#[test]
fn missing_lines_in_order() {
    assert_eq!(missing_line_ids(8, 12, &ids(&["9", "11"])), ids(&["8", "10", "12"]));
}

#[test]
fn decimal_notation() {
    assert_eq!(decimal_string(0), "0");
    assert_eq!(decimal_string(7), "7");
    assert_eq!(decimal_string(1205), "1205");
}

#[test]
fn unknown_target_is_not_answered() {
    let cache = FragmentCache::with_capacity(4).unwrap();
    assert_eq!(cache.check_fragment(&Link::File("/x.html".to_string()), "a"), None);
    assert!(FragmentCache::with_capacity(0).is_none());
}

#[test]
fn one_fetch_serves_every_link_to_a_target() {
    let mut cache = FragmentCache::with_capacity(100).unwrap();
    let first = Link::Http("https://example.com/page.html#a".to_string());
    let second = Link::Http("https://example.com/page.html#b".to_string());
    assert!(!cache.is_known(&first));
    cache.store_page(&first, Ok(r#"<p id="a">x</p>"#.to_string()));
    assert!(cache.is_known(&second));
    assert_eq!(cache.check_fragment(&first, "a"), Some(Ok(())));
    assert!(matches!(cache.check_fragment(&second, "b"), Some(Err(CheckError::Fragment(_, _, None)))));
}

#[test]
fn failed_fetch_is_kept() {
    let mut cache = FragmentCache::with_capacity(100).unwrap();
    let first = Link::File("/t/gone.html".to_string());
    let err = CheckError::Io(IoError::FileIo("/t/gone.html".to_string(), "not found".to_string()));
    cache.store_page(&first, Err(err.clone()));
    assert!(cache.is_known(&first));
    assert_eq!(cache.check_fragment(&first, "a"), Some(Err(err.clone())));
    assert_eq!(cache.check_fragment(&first, "b"), Some(Err(err)));
}

#[test]
fn cache_keeps_at_most_its_capacity() {
    let mut cache = FragmentCache::with_capacity(1).unwrap();
    let a = Link::File("/a.html".to_string());
    let b = Link::File("/b.html".to_string());
    cache.store_page(&a, Ok(String::new()));
    cache.store_page(&b, Ok(String::new()));
    assert!(cache.is_known(&b));
    assert!(!cache.is_known(&a));
}

#[test]
fn target_linked_many_times_is_fetched_once() {
    let fetches = std::cell::Cell::new(0);
    let mut cache = FragmentCache::with_capacity(100).unwrap();
    let fetch = || {
        fetches.set(fetches.get() + 1);
        Ok(r#"<p id="a">x</p>"#.to_string())
    };
    let a = Link::File("/t/p.html".to_string());
    assert_eq!(is_fragment_available(&mut cache, &a, "a", fetch), Ok(()));
    assert!(matches!(is_fragment_available(&mut cache, &a, "b", fetch), Err(CheckError::Fragment(_, _, None))));
    assert_eq!(is_fragment_available(&mut cache, &a, "", fetch), Ok(()));
    assert_eq!(fetches.get(), 1);
}

#[test]
fn failing_target_linked_many_times_is_fetched_once() {
    let fetches = std::cell::Cell::new(0);
    let mut cache = FragmentCache::with_capacity(100).unwrap();
    let err = CheckError::Http("https://e.com/gone".to_string());
    let fetch = || {
        fetches.set(fetches.get() + 1);
        Err(err.clone())
    };
    let first = Link::Http("https://e.com/gone#a".to_string());
    let second = Link::Http("https://e.com/gone#b".to_string());
    assert_eq!(is_fragment_available(&mut cache, &first, "a", fetch), Err(err.clone()));
    assert_eq!(is_fragment_available(&mut cache, &second, "b", fetch), Err(err.clone()));
    assert_eq!(fetches.get(), 1);
}

#[test]
fn empty_fragment_fetches_nothing() {
    let fetches = std::cell::Cell::new(0);
    let mut cache = FragmentCache::with_capacity(10).unwrap();
    let fetch = || {
        fetches.set(fetches.get() + 1);
        Ok(String::new())
    };
    let link = Link::File("/t/p.html".to_string());
    assert_eq!(is_fragment_available(&mut cache, &link, "", fetch), Ok(()));
    assert_eq!(fetches.get(), 0);
    assert!(!cache.is_known(&link));
}
