//! Run-wide options of a link check.
use vstd::prelude::*;

verus! {

/// What to do with `http` and `https` links.
#[derive(Copy, Clone, Debug, PartialEq, Eq, Structural)]
pub enum HttpCheck {
    /// Make a request to ensure the link works.
    Enabled,
    /// Accept every such link without a request.
    Ignored,
    /// Report every such link, except those under a trusted documentation host.
    Forbidden,
}

/// A page whose errors are (partly) to be ignored.
#[derive(Clone, Debug)]
pub struct IgnoredFile {
    /// The page, relative to the checked directory.
    pub path: String,
    /// The link targets to ignore; an empty list ignores every error of its kind.
    pub links: Vec<String>,
}

/// Link-checking options, fixed for one run.
#[derive(Clone, Debug)]
pub struct CheckContext {
    /// Report full paths instead of paths relative to the checked directory.
    pub verbose: bool,
    /// What to do with `http` and `https` links.
    pub check_http: HttpCheck,
    /// Whether `#fragment` parts of links are checked against the target's ids.
    pub check_fragments: bool,
    /// Whether unresolved intra-doc link markers are reported.
    pub check_intra_doc_links: bool,
    /// Pages with ignored link, file and fragment errors.
    pub ignored_links: Vec<IgnoredFile>,
    /// Pages with ignored intra-doc link errors.
    pub ignored_intra_doc_links: Vec<IgnoredFile>,
}

impl Default for CheckContext {
    fn default() -> (r: Self)
        ensures
            r.check_http == HttpCheck::Ignored,
            !r.verbose,
            r.check_fragments,
            !r.check_intra_doc_links,
            r.ignored_links@.len() == 0,
            r.ignored_intra_doc_links@.len() == 0,
    {
        CheckContext {
            check_http: HttpCheck::Ignored,
            verbose: false,
            check_fragments: true,
            check_intra_doc_links: false,
            ignored_links: Vec::new(),
            ignored_intra_doc_links: Vec::new(),
        }
    }
}

} // verus!
