//! Link targets, the errors found about them, and their messages.
use vstd::prelude::*;

verus! {

/// The identity of a checked target.
#[derive(Clone, Debug, PartialEq, Eq)]
pub enum Link {
    /// A file on disk, by its path.
    File(String),
    /// A web resource, by its URL.
    Http(String),
}

/// A failure to fetch a target.
#[derive(Clone, Debug, PartialEq, Eq)]
pub enum IoError {
    /// The request for a URL failed before any status came back.
    HttpFetch(String, String),
    /// A file could not be read.
    FileIo(String, String),
}

/// A problem found about one link of a page.
#[derive(Clone, Debug, PartialEq, Eq)]
pub enum CheckError {
    /// An intra-doc link went unresolved and ended up in the page.
    IntraDocLink(String),
    /// A linked file does not exist.
    File(String),
    /// A linked URL does not exist.
    Http(String),
    /// A URL was linked while HTTP checking is forbidden.
    HttpForbidden(String),
    /// The target exists but lacks the fragment; for a line range, the missing line ids.
    Fragment(Link, String, Option<Vec<String>>),
    /// The target could not be fetched.
    Io(IoError),
}

/// The errors of one page, in the order they were found.
#[derive(Clone, Debug)]
pub struct FileError {
    pub path: String,
    pub errors: Vec<CheckError>,
}

/// The text that names a link in messages.
pub open spec fn link_text(l: Link) -> Seq<char> {
    match l {
        Link::File(p) => p@,
        Link::Http(u) => u@,
    }
}

/// The strings of `items`, each but the first preceded by `sep`.
pub open spec fn joined(items: Seq<String>, sep: Seq<char>) -> Seq<char>
    decreases items.len(),
{
    if items.len() == 0 {
        Seq::empty()
    } else if items.len() == 1 {
        items[0]@
    } else {
        joined(items.drop_last(), sep) + sep + items.last()@
    }
}

pub open spec fn io_message(e: IoError) -> Seq<char> {
    match e {
        IoError::HttpFetch(u, m) => "Error fetching "@ + u@ + ": "@ + m@,
        IoError::FileIo(p, m) => "Error fetching "@ + p@ + ": "@ + m@,
    }
}

/// The one-line description of an error.
pub open spec fn message_of(e: CheckError) -> Seq<char> {
    match e {
        CheckError::IntraDocLink(t) => "Broken intra-doc link to "@ + t@ + "!"@,
        CheckError::File(p) => "Linked file at path "@ + p@ + " does not exist!"@,
        CheckError::Http(u) => "Linked URL "@ + u@ + " does not exist!"@,
        CheckError::HttpForbidden(u) => "HTTP checking is forbidden for "@ + u@ + "!"@,
        CheckError::Fragment(l, f, None) => "Fragment #"@ + f@ + " at "@ + link_text(l)
            + " does not exist!"@,
        CheckError::Fragment(l, f, Some(missing)) => "Fragments #"@ + joined(missing@, ", #"@)
            + " as expected by ranged fragment #"@ + f@ + " at "@ + link_text(l)
            + " do not exist!"@,
        CheckError::Io(e) => io_message(e),
    }
}

/// The indented lines that list `errors`, each on a line of its own.
pub open spec fn error_lines(errors: Seq<CheckError>) -> Seq<char>
    decreases errors.len(),
{
    if errors.len() == 0 {
        Seq::empty()
    } else {
        error_lines(errors.drop_last()) + "\n\t"@ + message_of(errors.last())
    }
}

/// A header line naming the page, then one line per error.
pub open spec fn report_of(f: FileError) -> Seq<char> {
    "Found invalid urls in "@ + f.path@ + ":"@ + error_lines(f.errors@)
}

fn owned(s: &str) -> (r: String)
    ensures
        r@ == s@,
{
    s.to_string()
}

fn join_strings(items: &Vec<String>, sep: &str) -> (r: String)
    ensures
        r@ == joined(items@, sep@),
{
    let mut out = String::new();
    let mut i: usize = 0;
    while i < items.len()
        invariant
            i <= items@.len(),
            out@ == joined(items@.take(i as int), sep@),
        decreases items@.len() - i,
    {
        assert(items@.take(i + 1).drop_last() =~= items@.take(i as int));
        if i > 0 {
            out.append(sep);
        }
        out.append(items[i].as_str());
        i = i + 1;
    }
    assert(items@.take(items@.len() as int) =~= items@);
    out
}

impl Link {
    /// An equal copy of the link.
    pub fn duplicate(&self) -> (r: Link)
        ensures
            r == *self,
    {
        match self {
            Link::File(p) => Link::File(p.clone()),
            Link::Http(u) => Link::Http(u.clone()),
        }
    }

    /// The text that names the link in messages.
    pub fn text(&self) -> (r: String)
        ensures
            r@ == link_text(*self),
    {
        match self {
            Link::File(p) => p.clone(),
            Link::Http(u) => u.clone(),
        }
    }
}

impl IoError {
    pub fn message(&self) -> (r: String)
        ensures
            r@ == io_message(*self),
    {
        let mut s = owned("Error fetching ");
        match self {
            IoError::HttpFetch(u, m) => {
                s.append(u.as_str());
                s.append(": ");
                s.append(m.as_str());
            },
            IoError::FileIo(p, m) => {
                s.append(p.as_str());
                s.append(": ");
                s.append(m.as_str());
            },
        }
        s
    }
}

/// An equal copy of a list of strings.
pub fn copy_strings(v: &Vec<String>) -> (r: Vec<String>)
    ensures
        r@ == v@,
{
    let mut out: Vec<String> = Vec::new();
    let mut i: usize = 0;
    while i < v.len()
        invariant
            i <= v@.len(),
            out@ == v@.take(i as int),
        decreases v@.len() - i,
    {
        out.push(v[i].clone());
        assert(out@ =~= v@.take(i + 1));
        i = i + 1;
    }
    assert(v@.take(v@.len() as int) =~= v@);
    out
}

impl IoError {
    /// An equal copy of the error.
    pub fn duplicate(&self) -> (r: IoError)
        ensures
            r == *self,
    {
        match self {
            IoError::HttpFetch(u, m) => IoError::HttpFetch(u.clone(), m.clone()),
            IoError::FileIo(p, m) => IoError::FileIo(p.clone(), m.clone()),
        }
    }
}

/// `a` and `b` are the same error: equal, with equal lists of missing ids.
pub open spec fn same_error(a: CheckError, b: CheckError) -> bool {
    match (a, b) {
        (CheckError::Fragment(l1, f1, Some(m1)), CheckError::Fragment(l2, f2, Some(m2))) => l1 == l2
            && f1 == f2 && m1@ == m2@,
        _ => a == b,
    }
}

impl CheckError {
    /// A copy of the error.
    pub fn duplicate(&self) -> (r: CheckError)
        ensures
            same_error(r, *self),
    {
        match self {
            CheckError::IntraDocLink(t) => CheckError::IntraDocLink(t.clone()),
            CheckError::File(p) => CheckError::File(p.clone()),
            CheckError::Http(u) => CheckError::Http(u.clone()),
            CheckError::HttpForbidden(u) => CheckError::HttpForbidden(u.clone()),
            CheckError::Fragment(l, f, None) => CheckError::Fragment(l.duplicate(), f.clone(), None),
            CheckError::Fragment(l, f, Some(m)) => CheckError::Fragment(l.duplicate(), f.clone(), Some(copy_strings(m))),
            CheckError::Io(e) => CheckError::Io(e.duplicate()),
        }
    }

    /// The one-line description of the error.
    pub fn message(&self) -> (r: String)
        ensures
            r@ == message_of(*self),
    {
        match self {
            CheckError::IntraDocLink(t) => {
                let mut s = owned("Broken intra-doc link to ");
                s.append(t.as_str());
                s.append("!");
                s
            },
            CheckError::File(p) => {
                let mut s = owned("Linked file at path ");
                s.append(p.as_str());
                s.append(" does not exist!");
                s
            },
            CheckError::Http(u) => {
                let mut s = owned("Linked URL ");
                s.append(u.as_str());
                s.append(" does not exist!");
                s
            },
            CheckError::HttpForbidden(u) => {
                let mut s = owned("HTTP checking is forbidden for ");
                s.append(u.as_str());
                s.append("!");
                s
            },
            CheckError::Fragment(l, f, None) => {
                let mut s = owned("Fragment #");
                s.append(f.as_str());
                s.append(" at ");
                s.append(l.text().as_str());
                s.append(" does not exist!");
                s
            },
            CheckError::Fragment(l, f, Some(missing)) => {
                let mut s = owned("Fragments #");
                s.append(join_strings(missing, ", #").as_str());
                s.append(" as expected by ranged fragment #");
                s.append(f.as_str());
                s.append(" at ");
                s.append(l.text().as_str());
                s.append(" do not exist!");
                s
            },
            CheckError::Io(e) => e.message(),
        }
    }
}

impl FileError {
    /// A header line naming the page, then one indented line per error.
    pub fn report(&self) -> (r: String)
        ensures
            r@ == report_of(*self),
    {
        let mut s = owned("Found invalid urls in ");
        s.append(self.path.as_str());
        s.append(":");
        let ghost head = s@;
        let mut i: usize = 0;
        while i < self.errors.len()
            invariant
                i <= self.errors@.len(),
                s@ == head + error_lines(self.errors@.take(i as int)),
            decreases self.errors@.len() - i,
        {
            assert(self.errors@.take(i + 1).drop_last() =~= self.errors@.take(i as int));
            s.append("\n\t");
            s.append(self.errors[i].message().as_str());
            i = i + 1;
        }
        assert(self.errors@.take(self.errors@.len() as int) =~= self.errors@);
        s
    }
}

} // verus!
