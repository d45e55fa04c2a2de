//! The decisions of the availability check of one link. The caller reads
//! files and makes requests between these steps; each step takes what came
//! back as a plain value.
use vstd::prelude::*;
use crate::address::{absolute_url, file_path, fragment_of, parsed_url, scheme, scheme_of, split_fragment, url_file_path, without_fragment_of};
use crate::context::{CheckContext, HttpCheck};
use crate::errors::{CheckError, IoError, Link};
use crate::fragment::fragment_verdict;
use crate::html::{parse_redirect, redirect_of};
use crate::text::{chars_of, last_at, lemma_last_at_unique, rfind_char, slice_string, starts_with, views};

verus! {

/// Links under this documentation host are taken to exist without a
/// request, whether HTTP checking is on or forbidden.
pub const TRUSTED_PREFIX: &'static str = "https://doc.rust-lang.org";

/// What to do next for one link.
#[derive(Debug)]
pub enum Plan {
    /// Nothing to fetch: the link is decided.
    Done(Result<(), CheckError>),
    /// Inspect `path` on disk, then check `fragment` of it if there is one.
    InspectFile { path: String, fragment: Option<String> },
    /// Ask for the URL with a lightweight request.
    Probe { url: String },
    /// Fetch the page at `page_url` and check `fragment` of `link` in it.
    FetchPage { link: Link, page_url: String, fragment: String },
}

/// What the disk says about a linked path.
#[derive(Copy, Clone, Debug)]
pub struct PathFacts {
    /// The path is a regular file.
    pub is_file: bool,
    /// The path is a directory.
    pub is_dir: bool,
    /// The path joined with `index.html` is a regular file.
    pub index_is_file: bool,
}

impl PathFacts {
    /// The facts can hold of one path: it is not both a file and a directory.
    pub open spec fn valid(&self) -> bool {
        !(self.is_file && self.is_dir)
    }
}

/// What came back from an HTTP request.
#[derive(Clone, Debug)]
pub enum HttpReply {
    /// A response with this status code and body.
    Received(u16, String),
    /// No response: the request failed on the way, for this reason.
    Failed(String),
}

pub open spec fn has_prefix(s: Seq<char>, prefix: Seq<char>) -> bool {
    prefix.len() <= s.len() && s.take(prefix.len() as int) == prefix
}

pub open spec fn is_http_scheme(s: Seq<char>) -> bool {
    s == "http"@ || s == "https"@
}

/// The fragment that a link asks to check: a nonempty one, when fragments are checked.
pub open spec fn wanted_fragment(url: Seq<char>, check_fragments: bool) -> Option<Seq<char>> {
    match fragment_of(url) {
        Some(f) => if check_fragments && f.len() > 0 { Some(f) } else { None },
        None => None,
    }
}

/// The path that a `file` URL names.
pub open spec fn path_of_url(url: Seq<char>) -> Option<Seq<char>> {
    match parsed_url(url) {
        Some(u) => url_file_path(u),
        None => None,
    }
}

/// `p` is what to do first for the link to `url`.
pub open spec fn plans(url: Seq<char>, ctx: CheckContext, p: Plan) -> bool {
    let s = scheme_of(url);
    let wanted = wanted_fragment(url, ctx.check_fragments);
    if s == "file"@ {
        match path_of_url(url) {
            Some(path) => match p {
                Plan::InspectFile { path: q, fragment } => q@ == path && match (fragment, wanted) {
                    (Some(f), Some(w)) => f@ == w,
                    (None, None) => true,
                    _ => false,
                },
                _ => false,
            },
            None => match p {
                Plan::Done(Err(CheckError::File(q))) => q@ == url,
                _ => false,
            },
        }
    } else if is_http_scheme(s) {
        match ctx.check_http {
            HttpCheck::Ignored => p matches Plan::Done(Ok(())),
            HttpCheck::Forbidden => if has_prefix(url, TRUSTED_PREFIX@) {
                p matches Plan::Done(Ok(()))
            } else {
                match p {
                    Plan::Done(Err(CheckError::HttpForbidden(u))) => u@ == url,
                    _ => false,
                }
            },
            HttpCheck::Enabled => if has_prefix(url, TRUSTED_PREFIX@) {
                p matches Plan::Done(Ok(()))
            } else {
                match wanted {
                    Some(w) => match p {
                        Plan::FetchPage { link: Link::Http(u), page_url, fragment } => u@ == url
                            && page_url@ == without_fragment_of(url) && fragment@ == w,
                        _ => false,
                    },
                    None => match p {
                        Plan::Probe { url: u } => u@ == url,
                        _ => false,
                    },
                }
            },
        }
    } else {
        p matches Plan::Done(Ok(()))
    }
}

fn is_trusted(url: &str) -> (r: bool)
    ensures
        r == has_prefix(url@, TRUSTED_PREFIX@),
{
    starts_with(&chars_of(url), &chars_of(TRUSTED_PREFIX))
}

/// Decides what to do first for a link to `url`, a serialized URL: `file`
/// links are looked up on disk, `http` and `https` links follow the HTTP
/// policy, and links of any other scheme are accepted.
pub fn plan_check(url: &str, ctx: &CheckContext) -> (r: Plan)
    ensures
        plans(url@, *ctx, r),
{
    let s = scheme(url);
    let (_, fragment) = split_fragment(url);
    let wanted: Option<String> = match fragment {
        Some(f) => if ctx.check_fragments && f.unicode_len() > 0 { Some(f) } else { None },
        None => None,
    };
    proof {
        reveal_strlit("file");
        reveal_strlit("http");
        reveal_strlit("https");
    }
    let is_file = s == "file".to_string();
    let is_http = s == "http".to_string() || s == "https".to_string();
    if is_file {
        match file_path(url) {
            Some(path) => Plan::InspectFile { path, fragment: wanted },
            None => Plan::Done(Err(CheckError::File(url.to_string()))),
        }
    } else if is_http {
        match ctx.check_http {
            HttpCheck::Ignored => Plan::Done(Ok(())),
            HttpCheck::Forbidden => {
                if is_trusted(url) {
                    Plan::Done(Ok(()))
                } else {
                    Plan::Done(Err(CheckError::HttpForbidden(url.to_string())))
                }
            },
            HttpCheck::Enabled => {
                if is_trusted(url) {
                    Plan::Done(Ok(()))
                } else {
                    match wanted {
                        Some(f) => Plan::FetchPage {
                            link: Link::Http(url.to_string()),
                            page_url: split_fragment(url).0,
                            fragment: f,
                        },
                        None => Plan::Probe { url: url.to_string() },
                    }
                }
            },
        }
    } else {
        Plan::Done(Ok(()))
    }
}

} // verus!

verus! {

/// The directory that holds `path`, as `Path::parent` gives it.
pub open spec fn parent_of(path: Seq<char>) -> Seq<char> {
    if exists|i: int| last_at(path, '/', i) {
        let i = choose|i: int| last_at(path, '/', i);
        if i == 0 { seq!['/'] } else { path.take(i) }
    } else {
        Seq::empty()
    }
}

/// `rel` taken from the directory `dir`, as `Path::join` does it: an
/// absolute `rel` stands for itself.
pub open spec fn join_path(dir: Seq<char>, rel: Seq<char>) -> Seq<char> {
    if rel.len() > 0 && rel[0] == '/' {
        rel
    } else if dir.len() == 0 || dir.last() == '/' {
        dir + rel
    } else {
        dir + seq!['/'] + rel
    }
}

/// The index page of a directory.
pub open spec fn index_path_of(dir: Seq<char>) -> Seq<char> {
    join_path(dir, "index.html"@)
}

/// `rel` taken from the directory `dir`.
pub fn join_paths(dir: &str, rel: &str) -> (r: String)
    ensures
        r@ == join_path(dir@, rel@),
{
    let n = dir.unicode_len();
    let m = rel.unicode_len();
    if m > 0 && rel.get_char(0) == '/' {
        rel.to_string()
    } else if n == 0 || dir.get_char(n - 1) == '/' {
        let mut s = dir.to_string();
        s.append(rel);
        s
    } else {
        let mut s = dir.to_string();
        s.append("/");
        s.append(rel);
        proof {
            reveal_strlit("/");
        }
        assert(s@ =~= dir@ + seq!['/'] + rel@);
        s
    }
}

/// The directory that holds `path`.
pub fn parent_dir(path: &str) -> (r: String)
    ensures
        r@ == parent_of(path@),
{
    let v = chars_of(path);
    match rfind_char(&v, '/') {
        Some(i) => {
            proof {
                assert forall|j: int| last_at(path@, '/', j) implies j == i by {
                    lemma_last_at_unique(path@, '/', i as int, j);
                }
            }
            if i == 0 {
                proof {
                    reveal_strlit("/");
                }
                let r = "/".to_string();
                assert(r@ =~= seq!['/']);
                r
            } else {
                assert(path@.subrange(0, i as int) =~= path@.take(i as int));
                slice_string(path, 0, i)
            }
        },
        None => String::new(),
    }
}

/// The file that a link to `path` reads: the path itself if it is a file,
/// else the index page of the directory, if the path is a directory that
/// has one; `None` for any other path, which does not exist.
pub open spec fn location_of(path: Seq<char>, facts: PathFacts) -> Option<Seq<char>> {
    if facts.is_file {
        Some(path)
    } else if facts.is_dir && facts.index_is_file {
        Some(index_path_of(path))
    } else {
        None
    }
}

/// The file that a link to `path` reads, or the error that it does not exist.
pub fn locate_file(path: &str, facts: &PathFacts) -> (r: Result<String, CheckError>)
    requires
        facts.valid(),
    ensures
        match r {
            Ok(p) => location_of(path@, *facts) == Some(p@),
            Err(CheckError::File(p)) => location_of(path@, *facts) is None && p@ == path@,
            Err(_) => false,
        },
{
    if facts.is_file {
        Ok(path.to_string())
    } else if facts.is_dir && facts.index_is_file {
        Ok(index_path(path))
    } else {
        Err(CheckError::File(path.to_string()))
    }
}

/// The index page of the directory at `dir`.
pub fn index_path(dir: &str) -> (r: String)
    ensures
        r@ == index_path_of(dir@),
{
    join_paths(dir, "index.html")
}

/// A link to a directory succeeds exactly when the directory holds an
/// `index.html` file, and reaches the same page with or without a trailing
/// slash.
pub proof fn lemma_directory_link(dir: Seq<char>, facts: PathFacts)
    requires
        dir.len() > 0,
        dir.last() != '/',
        facts.valid(),
        facts.is_dir,
    ensures
        location_of(dir, facts) is Some <==> facts.index_is_file,
        location_of(dir + seq!['/'], facts) == location_of(dir, facts),
{
    reveal_strlit("index.html");
    assert((dir + seq!['/']).last() == '/');
    assert(dir + seq!['/'] + "index.html"@ =~= dir + seq!['/'] + "index.html"@);
}

/// Whether a status code is a success (`2xx`).
pub open spec fn is_success(code: u16) -> bool {
    200 <= code <= 299
}

/// What an answer to the lightweight request for `url` says of the link.
pub fn probe_outcome(url: &str, reply: &HttpReply) -> (r: Result<(), CheckError>)
    ensures
        match *reply {
            HttpReply::Received(code, _) => if is_success(code) {
                r is Ok
            } else {
                r matches Err(CheckError::Http(u)) && u@ == url@
            },
            HttpReply::Failed(m) => r matches Err(CheckError::Io(IoError::HttpFetch(u, n)))
                && u@ == url@ && n@ == m@,
        },
{
    match reply {
        HttpReply::Received(code, _) => {
            if 200 <= *code && *code <= 299 {
                Ok(())
            } else {
                Err(CheckError::Http(url.to_string()))
            }
        },
        HttpReply::Failed(m) => Err(CheckError::Io(IoError::HttpFetch(url.to_string(), m.clone()))),
    }
}

/// The page that a full request for `url` brought, or what went wrong.
pub fn page_outcome(url: &str, reply: HttpReply) -> (r: Result<String, CheckError>)
    ensures
        match reply {
            HttpReply::Received(code, body) => if is_success(code) {
                r matches Ok(b) && b@ == body@
            } else {
                r matches Err(CheckError::Http(u)) && u@ == url@
            },
            HttpReply::Failed(m) => r matches Err(CheckError::Io(IoError::HttpFetch(u, n)))
                && u@ == url@ && n@ == m@,
        },
{
    match reply {
        HttpReply::Received(code, body) => {
            if 200 <= code && code <= 299 {
                Ok(body)
            } else {
                Err(CheckError::Http(url.to_string()))
            }
        },
        HttpReply::Failed(m) => Err(CheckError::Io(IoError::HttpFetch(url.to_string(), m))),
    }
}

/// The file that a redirect page at `path` sends its reader to, taken from
/// the page's directory. Only this one step is followed.
pub fn redirect_file_target(path: &str, html: &str) -> (r: Option<String>)
    ensures
        match redirect_of(html@) {
            Some(t) => r matches Some(p) && p@ == join_path(parent_of(path@), t),
            None => r is None,
        },
{
    match parse_redirect(html) {
        Some(t) => Some(join_paths(parent_dir(path).as_str(), t.as_str())),
        None => None,
    }
}

/// The URL that a fetched redirect page sends its reader to, when it is
/// written as an absolute URL. Only this one step is followed.
pub fn redirect_url_target(html: &str) -> (r: Option<String>)
    ensures
        match redirect_of(html@) {
            Some(t) => match parsed_url(t) {
                Some(u) => r matches Some(v) && v@ == u,
                None => r is None,
            },
            None => r is None,
        },
{
    match parse_redirect(html) {
        Some(t) => absolute_url(t.as_str()),
        None => None,
    }
}

/// A link without a fragment to check is never fetched: a file is only
/// looked up on disk, and a URL at most probed.
pub proof fn lemma_no_fetch_without_fragment(url: Seq<char>, ctx: CheckContext, p: Plan)
    requires
        plans(url, ctx, p),
        fragment_of(url) matches Some(f) ==> f.len() == 0,
    ensures
        !(p is FetchPage),
        p matches Plan::InspectFile { fragment, .. } ==> fragment is None,
{
}

/// With HTTP checking off, every `http` and `https` link is accepted without a request.
pub proof fn lemma_ignored_http_accepted(url: Seq<char>, ctx: CheckContext, p: Plan)
    requires
        plans(url, ctx, p),
        is_http_scheme(scheme_of(url)),
        ctx.check_http == HttpCheck::Ignored,
    ensures
        p matches Plan::Done(Ok(())),
{
    reveal_strlit("file");
    reveal_strlit("http");
    reveal_strlit("https");
    assert("file"@[0] != "http"@[0]);
    assert("file"@.len() != "https"@.len());
}

} // verus!

verus! {

/// Two plans take the same step on the same texts.
pub open spec fn same_plan(p: Plan, q: Plan) -> bool {
    match (p, q) {
        (Plan::Done(Ok(())), Plan::Done(Ok(()))) => true,
        (Plan::Done(Err(CheckError::File(a))), Plan::Done(Err(CheckError::File(b)))) => a@ == b@,
        (Plan::Done(Err(CheckError::HttpForbidden(a))), Plan::Done(Err(CheckError::HttpForbidden(b)))) => a@ == b@,
        (Plan::InspectFile { path: a, fragment: f }, Plan::InspectFile { path: b, fragment: g }) => a@ == b@
            && match (f, g) {
                (Some(x), Some(y)) => x@ == y@,
                (None, None) => true,
                _ => false,
            },
        (Plan::Probe { url: a }, Plan::Probe { url: b }) => a@ == b@,
        (
            Plan::FetchPage { link: Link::Http(a), page_url: c, fragment: f },
            Plan::FetchPage { link: Link::Http(b), page_url: d, fragment: g },
        ) => a@ == b@ && c@ == d@ && f@ == g@,
        _ => false,
    }
}

/// Two outcomes of a fragment check report the same thing.
pub open spec fn same_outcome(r: Result<(), CheckError>, s: Result<(), CheckError>) -> bool {
    match (r, s) {
        (Ok(()), Ok(())) => true,
        (Err(CheckError::Fragment(l, f, None)), Err(CheckError::Fragment(k, g, None))) => l == k && f@ == g@,
        (Err(CheckError::Fragment(l, f, Some(m))), Err(CheckError::Fragment(k, g, Some(n)))) => l == k
            && f@ == g@ && views(m@) == views(n@),
        _ => false,
    }
}

/// The first step for a link depends on its URL and the run's options
/// alone, so checking an unchanged tree again takes the same steps.
pub proof fn lemma_plan_is_determined(url: Seq<char>, ctx: CheckContext, p: Plan, q: Plan)
    requires
        plans(url, ctx, p),
        plans(url, ctx, q),
    ensures
        same_plan(p, q),
{
}

/// The verdict on a fragment depends on the link, the fragment and the
/// target's ids alone, so checking an unchanged tree again gives the same
/// verdicts.
pub proof fn lemma_verdict_is_determined(link: Link, fragment: Seq<char>, ids: Seq<String>, r: Result<(), CheckError>, s: Result<(), CheckError>)
    requires
        fragment_verdict(link, fragment, ids, r),
        fragment_verdict(link, fragment, ids, s),
    ensures
        same_outcome(r, s),
{
}

} // verus!
