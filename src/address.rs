//! URLs of link targets, kept as their serialized text, and how hrefs resolve.
use vstd::prelude::*;
use crate::text::{after_first, before_first, split_first};

verus! {

/// The serialization of the URL that `url::Url::parse` makes of a text.
pub uninterp spec fn parsed_url(s: Seq<char>) -> Option<Seq<char>>;

/// The serialization of the URL that `url::Url::join` makes of a parsed URL and a reference.
pub uninterp spec fn url_join(base: Seq<char>, reference: Seq<char>) -> Option<Seq<char>>;

/// The `file` URL that `url::Url::from_file_path` makes of a path.
pub uninterp spec fn file_url_of(path: Seq<char>) -> Option<Seq<char>>;

/// The path that `url::Url::to_file_path` gives for a parsed URL, when it is valid text.
pub uninterp spec fn url_file_path(url: Seq<char>) -> Option<Seq<char>>;

/// Relies on url::Url::parse: the serialization of the parsed URL.
#[verifier::external_body]
fn parse_url(s: &str) -> (r: Option<String>)
    ensures
        match r {
            Some(u) => parsed_url(s@) == Some(u@),
            None => parsed_url(s@) is None,
        },
{
    url::Url::parse(s).ok().map(String::from)
}

/// Relies on url::Url::join: `reference` resolved against the parsed `base`.
#[verifier::external_body]
fn join_url(base: &str, reference: &str) -> (r: Option<String>)
    ensures
        match r {
            Some(u) => parsed_url(base@) matches Some(b) && url_join(b, reference@) == Some(u@),
            None => match parsed_url(base@) {
                Some(b) => url_join(b, reference@) is None,
                None => true,
            },
        },
{
    let base = url::Url::parse(base).ok()?;
    base.join(reference).ok().map(String::from)
}

/// Relies on url::Url::from_file_path: the `file` URL of an absolute path.
#[verifier::external_body]
fn from_file_path(path: &str) -> (r: Option<String>)
    ensures
        match r {
            Some(u) => file_url_of(path@) == Some(u@),
            None => file_url_of(path@) is None,
        },
{
    url::Url::from_file_path(path).ok().map(String::from)
}

/// Relies on url::Url::from_directory_path: the file URL of the path, ending in a slash.
#[verifier::external_body]
fn from_directory_path(path: &str) -> (r: Option<String>)
    ensures
        match r {
            Some(u) => file_url_of(path@) matches Some(f) && u@ == directory_form(f),
            None => file_url_of(path@) is None,
        },
{
    url::Url::from_directory_path(path).ok().map(String::from)
}

/// Relies on url::Url::to_file_path: the path that a parsed `file` URL names.
#[verifier::external_body]
fn to_file_path(url: &str) -> (r: Option<String>)
    ensures
        match r {
            Some(p) => parsed_url(url@) matches Some(u) && url_file_path(u) == Some(p@),
            None => match parsed_url(url@) {
                Some(u) => url_file_path(u) is None,
                None => true,
            },
        },
{
    let parsed = url::Url::parse(url).ok()?;
    parsed.to_file_path().ok()?.into_os_string().into_string().ok()
}

/// A URL with a trailing slash, as a directory URL has.
pub open spec fn directory_form(u: Seq<char>) -> Seq<char> {
    if u.len() > 0 && u.last() == '/' {
        u
    } else {
        u.push('/')
    }
}

/// The scheme of a serialized URL: what precedes the first colon.
pub open spec fn scheme_of(url: Seq<char>) -> Seq<char> {
    before_first(url, ':')
}

/// A serialized URL without its fragment.
pub open spec fn without_fragment_of(url: Seq<char>) -> Seq<char> {
    before_first(url, '#')
}

/// The fragment of a serialized URL, if it has one.
pub open spec fn fragment_of(url: Seq<char>) -> Option<Seq<char>> {
    after_first(url, '#')
}

/// Where an href found in the page at `page_url` points, in a tree whose
/// top is `root_url`: an href that starts with `/` is taken from the top of
/// the tree, any other from the page.
pub open spec fn resolved(root_url: Seq<char>, page_url: Seq<char>, href: Seq<char>) -> Option<Seq<char>> {
    if href.len() > 0 && href[0] == '/' {
        match parsed_url(root_url) {
            Some(b) => url_join(b, href.drop_first()),
            None => None,
        }
    } else {
        match parsed_url(page_url) {
            Some(b) => url_join(b, href),
            None => None,
        }
    }
}

/// The scheme of a serialized URL.
pub fn scheme(url: &str) -> (r: String)
    ensures
        r@ == scheme_of(url@),
{
    split_first(url, ':').0
}

/// A serialized URL split into its part before the fragment and its fragment.
pub fn split_fragment(url: &str) -> (r: (String, Option<String>))
    ensures
        r.0@ == without_fragment_of(url@),
        match r.1 {
            Some(f) => fragment_of(url@) == Some(f@),
            None => fragment_of(url@) is None,
        },
{
    split_first(url, '#')
}

/// The URL of the directory at `path`, ending in a slash.
pub fn directory_url(path: &str) -> (r: Option<String>)
    ensures
        match r {
            Some(u) => file_url_of(path@) matches Some(f) && u@ == directory_form(f),
            None => file_url_of(path@) is None,
        },
{
    from_directory_path(path)
}

/// The URL of the file at `path`.
pub fn file_url(path: &str) -> (r: Option<String>)
    ensures
        match r {
            Some(u) => file_url_of(path@) == Some(u@),
            None => file_url_of(path@) is None,
        },
{
    from_file_path(path)
}

/// The path that a `file` URL names.
pub fn file_path(url: &str) -> (r: Option<String>)
    ensures
        match r {
            Some(p) => parsed_url(url@) matches Some(u) && url_file_path(u) == Some(p@),
            None => match parsed_url(url@) {
                Some(u) => url_file_path(u) is None,
                None => true,
            },
        },
{
    to_file_path(url)
}

/// An absolute URL, as written in a redirect.
pub fn absolute_url(s: &str) -> (r: Option<String>)
    ensures
        match r {
            Some(u) => parsed_url(s@) == Some(u@),
            None => parsed_url(s@) is None,
        },
{
    parse_url(s)
}

/// Resolves `href`, found in the page at `page_url`, in the tree whose top is `root_url`.
pub fn resolve_href(root_url: &str, page_url: &str, href: &str) -> (r: Option<String>)
    ensures
        match r {
            Some(u) => resolved(root_url@, page_url@, href@) == Some(u@),
            None => resolved(root_url@, page_url@, href@) is None,
        },
{
    let n = href.unicode_len();
    if n > 0 && href.get_char(0) == '/' {
        let rest = href.substring_char(1, n);
        assert(rest@ =~= href@.drop_first());
        join_url(root_url, rest)
    } else {
        join_url(page_url, href)
    }
}

/// An href that starts with `/` resolves to the same target from every page of the tree.
pub proof fn lemma_root_relative_independent_of_page(root_url: Seq<char>, page_a: Seq<char>, page_b: Seq<char>, path: Seq<char>)
    ensures
        resolved(root_url, page_a, seq!['/'] + path) == resolved(root_url, page_b, seq!['/'] + path),
        resolved(root_url, page_a, seq!['/'] + path) == match parsed_url(root_url) {
            Some(b) => url_join(b, path),
            None => None,
        },
{
    assert((seq!['/'] + path).drop_first() =~= path);
}

} // verus!
