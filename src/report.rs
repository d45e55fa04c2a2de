//! From the outcomes of a page's links to what is reported about the page:
//! collecting its errors, dropping the ignored ones, and shortening paths.
use vstd::prelude::*;
use crate::check::has_prefix;
use crate::context::{CheckContext, IgnoredFile};
use crate::errors::{CheckError, FileError, Link};
use crate::fragment::{contains_id, has_id};
use crate::text::{chars_of, slice_string, starts_with};

verus! {

/// The errors among the outcomes, in order.
pub open spec fn errors_of(outcomes: Seq<Result<(), CheckError>>) -> Seq<CheckError>
    decreases outcomes.len(),
{
    if outcomes.len() == 0 {
        Seq::empty()
    } else {
        let rest = errors_of(outcomes.drop_first());
        match outcomes[0] {
            Ok(()) => rest,
            Err(e) => seq![e] + rest,
        }
    }
}

/// Gathers the errors of the page at `path`: those of its links, in order,
/// then the unresolved intra-doc links. A page with none gives nothing.
pub fn page_errors(path: String, outcomes: Vec<Result<(), CheckError>>, intra_doc: Vec<CheckError>) -> (r: Option<FileError>)
    ensures
        match r {
            Some(f) => f.path == path && f.errors@ == errors_of(outcomes@) + intra_doc@
                && f.errors@.len() > 0,
            None => errors_of(outcomes@) + intra_doc@ == Seq::<CheckError>::empty(),
        },
{
    let ghost all = outcomes@;
    let mut rest = outcomes;
    let mut errors: Vec<CheckError> = Vec::new();
    while rest.len() > 0
        invariant
            errors@ + errors_of(rest@) == errors_of(all),
        decreases rest@.len(),
    {
        let ghost before = rest@;
        let first = rest.remove(0);
        assert(rest@ =~= before.drop_first());
        match first {
            Ok(()) => {},
            Err(e) => {
                errors.push(e);
                assert(errors@ + errors_of(rest@) =~= errors_of(all));
            },
        }
    }
    assert(errors@ + errors_of(rest@) =~= errors@);
    let mut intra = intra_doc;
    errors.append(&mut intra);
    if errors.len() == 0 {
        None
    } else {
        Some(FileError { path, errors })
    }
}

/// `i` is the first entry of `list` for the page `path`.
pub open spec fn first_entry_at(list: Seq<IgnoredFile>, path: Seq<char>, i: int) -> bool {
    &&& 0 <= i < list.len()
    &&& list[i].path@ == path
    &&& forall|j: int| 0 <= j < i ==> (#[trigger] list[j]).path@ != path
}

/// The first entry of `list` for the page `path`, if any.
pub open spec fn entry_for(list: Seq<IgnoredFile>, path: Seq<char>) -> Option<IgnoredFile> {
    if exists|i: int| first_entry_at(list, path, i) {
        Some(list[choose|i: int| first_entry_at(list, path, i)])
    } else {
        None
    }
}

/// An ignore-list item as compared with a fragment: without a leading `#`.
pub open spec fn without_hash(s: Seq<char>) -> Seq<char> {
    if s.len() > 0 && s[0] == '#' { s.drop_first() } else { s }
}

/// Whether some ignored item of `links`, without a leading `#`, is `fragment`.
pub open spec fn lists_fragment(links: Seq<String>, fragment: Seq<char>) -> bool {
    exists|i: int| 0 <= i < links.len() && without_hash((#[trigger] links[i])@) == fragment
}

/// Whether the entry for a page's links drops the error.
pub open spec fn link_entry_drops(entry: IgnoredFile, e: CheckError) -> bool {
    if entry.links@.len() == 0 {
        e is Http || e is File || e is Fragment
    } else {
        match e {
            CheckError::Fragment(_, f, _) => lists_fragment(entry.links@, f@),
            CheckError::File(p) => has_id(entry.links@, p@),
            CheckError::Http(u) => has_id(entry.links@, u@),
            _ => false,
        }
    }
}

/// Whether the entry for a page's intra-doc links drops the error.
pub open spec fn intra_entry_drops(entry: IgnoredFile, e: CheckError) -> bool {
    match e {
        CheckError::IntraDocLink(t) => entry.links@.len() == 0 || has_id(entry.links@, t@),
        _ => false,
    }
}

/// Whether the ignore lists of `ctx` drop the error `e` of the page `path`.
pub open spec fn is_ignored(ctx: CheckContext, path: Seq<char>, e: CheckError) -> bool {
    (match entry_for(ctx.ignored_links@, path) {
        Some(entry) => link_entry_drops(entry, e),
        None => false,
    }) || (match entry_for(ctx.ignored_intra_doc_links@, path) {
        Some(entry) => intra_entry_drops(entry, e),
        None => false,
    })
}

/// The errors of the page `path` that the ignore lists keep, in order.
pub open spec fn kept_errors(ctx: CheckContext, path: Seq<char>, errors: Seq<CheckError>) -> Seq<CheckError>
    decreases errors.len(),
{
    if errors.len() == 0 {
        Seq::empty()
    } else {
        let rest = kept_errors(ctx, path, errors.drop_first());
        if is_ignored(ctx, path, errors[0]) {
            rest
        } else {
            seq![errors[0]] + rest
        }
    }
}

fn find_entry(list: &Vec<IgnoredFile>, path: &String) -> (r: Option<usize>)
    ensures
        match r {
            Some(i) => first_entry_at(list@, path@, i as int) && entry_for(list@, path@) == Some(list@[i as int]),
            None => entry_for(list@, path@) is None,
        },
{
    let mut i: usize = 0;
    while i < list.len()
        invariant
            i <= list@.len(),
            forall|j: int| 0 <= j < i ==> (#[trigger] list@[j]).path@ != path@,
        decreases list@.len() - i,
    {
        if list[i].path == *path {
            assert(first_entry_at(list@, path@, i as int));
            assert forall|j: int| first_entry_at(list@, path@, j) implies j == i by {
                if j < i {
                    assert(list@[j].path@ != path@);
                } else if j > i {
                    assert(list@[i as int].path@ != path@);
                }
            }
            return Some(i);
        }
        i = i + 1;
    }
    None
}

fn strip_hash(s: &String) -> (r: String)
    ensures
        r@ == without_hash(s@),
{
    let n = s.as_str().unicode_len();
    if n > 0 && s.as_str().get_char(0) == '#' {
        let r = slice_string(s.as_str(), 1, n);
        assert(r@ =~= s@.drop_first());
        r
    } else {
        s.clone()
    }
}

fn ignores_fragment(links: &Vec<String>, fragment: &String) -> (r: bool)
    ensures
        r == lists_fragment(links@, fragment@),
{
    let mut i: usize = 0;
    while i < links.len()
        invariant
            i <= links@.len(),
            forall|j: int| 0 <= j < i ==> without_hash((#[trigger] links@[j])@) != fragment@,
        decreases links@.len() - i,
    {
        if strip_hash(&links[i]) == *fragment {
            return true;
        }
        i = i + 1;
    }
    false
}

fn link_entry_ignores(entry: &IgnoredFile, e: &CheckError) -> (r: bool)
    ensures
        r == link_entry_drops(*entry, *e),
{
    if entry.links.len() == 0 {
        match e {
            CheckError::Http(_) | CheckError::File(_) | CheckError::Fragment(..) => true,
            _ => false,
        }
    } else {
        match e {
            CheckError::Fragment(_, f, _) => ignores_fragment(&entry.links, f),
            CheckError::File(p) => contains_id(&entry.links, p.as_str()),
            CheckError::Http(u) => contains_id(&entry.links, u.as_str()),
            _ => false,
        }
    }
}

fn intra_entry_ignores(entry: &IgnoredFile, e: &CheckError) -> (r: bool)
    ensures
        r == intra_entry_drops(*entry, *e),
{
    match e {
        CheckError::IntraDocLink(t) => entry.links.len() == 0 || contains_id(&entry.links, t.as_str()),
        _ => false,
    }
}

/// Whether the ignore lists of `ctx` drop the error `e` of the page `path`.
pub fn ignores(ctx: &CheckContext, path: &String, e: &CheckError) -> (r: bool)
    ensures
        r == is_ignored(*ctx, path@, *e),
{
    let by_links = match find_entry(&ctx.ignored_links, path) {
        Some(i) => link_entry_ignores(&ctx.ignored_links[i], e),
        None => false,
    };
    let by_intra = match find_entry(&ctx.ignored_intra_doc_links, path) {
        Some(i) => intra_entry_ignores(&ctx.ignored_intra_doc_links[i], e),
        None => false,
    };
    by_links || by_intra
}

/// Drops the errors of a page that the ignore lists of `ctx` name, looking
/// the page up by `relative_path`, its path inside the checked directory. A
/// page left without errors gives nothing.
pub fn filter_ignored(file_error: FileError, relative_path: &String, ctx: &CheckContext) -> (r: Option<FileError>)
    ensures
        match r {
            Some(f) => f.path == file_error.path && f.errors@ == kept_errors(*ctx, relative_path@, file_error.errors@)
                && f.errors@.len() > 0,
            None => kept_errors(*ctx, relative_path@, file_error.errors@).len() == 0,
        },
{
    let FileError { path, errors } = file_error;
    let ghost all = errors@;
    let mut rest = errors;
    let mut kept: Vec<CheckError> = Vec::new();
    while rest.len() > 0
        invariant
            kept@ + kept_errors(*ctx, relative_path@, rest@) == kept_errors(*ctx, relative_path@, all),
        decreases rest@.len(),
    {
        let ghost before = rest@;
        let first = rest.remove(0);
        assert(rest@ =~= before.drop_first());
        if !ignores(ctx, relative_path, &first) {
            kept.push(first);
            assert(kept@ + kept_errors(*ctx, relative_path@, rest@) =~= kept_errors(*ctx, relative_path@, all));
        }
    }
    assert(kept@ + kept_errors(*ctx, relative_path@, rest@) =~= kept@);
    if kept.len() == 0 {
        None
    } else {
        Some(FileError { path, errors: kept })
    }
}

/// An entry with an empty list for one page drops every link, file and
/// fragment error of that page, and nothing of a page that no entry names.
pub proof fn lemma_empty_entry_covers_only_its_page(
    ctx: CheckContext,
    page: Seq<char>,
    errors: Seq<CheckError>,
    other: Seq<char>,
    other_errors: Seq<CheckError>,
)
    requires
        entry_for(ctx.ignored_links@, page) matches Some(entry) && entry.links@.len() == 0,
        entry_for(ctx.ignored_links@, other) is None,
        entry_for(ctx.ignored_intra_doc_links@, other) is None,
    ensures
        forall|i: int| 0 <= i < kept_errors(ctx, page, errors).len() ==> !(#[trigger] kept_errors(ctx, page, errors)[i] is Http
            || kept_errors(ctx, page, errors)[i] is File || kept_errors(ctx, page, errors)[i] is Fragment),
        kept_errors(ctx, other, other_errors) == other_errors,
    decreases errors.len() + other_errors.len(),
{
    if errors.len() > 0 {
        lemma_empty_entry_covers_only_its_page(ctx, page, errors.drop_first(), other, Seq::empty());
        let rest = kept_errors(ctx, page, errors.drop_first());
        assert forall|i: int| 0 <= i < kept_errors(ctx, page, errors).len() implies !(#[trigger] kept_errors(ctx, page, errors)[i] is Http
            || kept_errors(ctx, page, errors)[i] is File || kept_errors(ctx, page, errors)[i] is Fragment) by {
            if !is_ignored(ctx, page, errors[0]) && i > 0 {
                assert(kept_errors(ctx, page, errors)[i] == rest[i - 1]);
            }
        }
    }
    if other_errors.len() > 0 {
        lemma_empty_entry_covers_only_its_page(ctx, page, Seq::empty(), other, other_errors.drop_first());
        assert(seq![other_errors[0]] + other_errors.drop_first() =~= other_errors);
    }
}

} // verus!

verus! {

/// A path inside the checked directory `root` as a path relative to it;
/// any other path as it is.
pub open spec fn shortened(path: Seq<char>, root: Seq<char>) -> Seq<char> {
    if path == root {
        Seq::empty()
    } else if has_prefix(path, root + seq!['/']) {
        path.skip(root.len() + 1 as int)
    } else if root.len() > 0 && root.last() == '/' && has_prefix(path, root) {
        path.skip(root.len() as int)
    } else {
        path
    }
}

/// `new` is `old` with the path of a file target shortened.
pub open spec fn shortens(old: CheckError, new: CheckError, root: Seq<char>) -> bool {
    match old {
        CheckError::File(p) => match new {
            CheckError::File(q) => q@ == shortened(p@, root),
            _ => false,
        },
        CheckError::Fragment(Link::File(p), f, m) => match new {
            CheckError::Fragment(Link::File(q), g, n) => q@ == shortened(p@, root) && g == f && n == m,
            _ => false,
        },
        _ => new == old,
    }
}

/// A path inside the checked directory `root` as a path relative to it.
pub fn shorten_path(path: &str, root: &str) -> (r: String)
    ensures
        r@ == shortened(path@, root@),
{
    let p = chars_of(path);
    let mut dir = root.to_string();
    let n = root.unicode_len();
    let m = p.len();
    if path.to_string() == dir {
        return String::new();
    }
    dir.append("/");
    proof {
        reveal_strlit("/");
    }
    assert(dir@ =~= root@ + seq!['/']);
    if starts_with(&p, &chars_of(dir.as_str())) {
        return slice_string(path, n + 1, m);
    }
    if n > 0 && root.get_char(n - 1) == '/' && starts_with(&p, &chars_of(root)) {
        return slice_string(path, n, m);
    }
    assert(path@.subrange(0, m as int) =~= path@);
    slice_string(path, 0, m)
}

fn shorten_error(e: CheckError, root: &str) -> (r: CheckError)
    ensures
        shortens(e, r, root@),
{
    match e {
        CheckError::File(p) => CheckError::File(shorten_path(p.as_str(), root)),
        CheckError::Fragment(Link::File(p), f, m) => CheckError::Fragment(Link::File(shorten_path(p.as_str(), root)), f, m),
        other => other,
    }
}

impl FileError {
    /// Shortens the page's path and the paths of its file targets to paths
    /// relative to the checked directory `root`.
    pub fn shorten_all(&mut self, root: &str)
        ensures
            final(self).path@ == shortened(old(self).path@, root@),
            final(self).errors@.len() == old(self).errors@.len(),
            forall|i: int| 0 <= i < old(self).errors@.len() ==> shortens(old(self).errors@[i], #[trigger] final(self).errors@[i], root@),
    {
        self.path = shorten_path(self.path.as_str(), root);
        let ghost all = self.errors@;
        let ghost short = self.path@;
        let mut done: Vec<CheckError> = Vec::new();
        while self.errors.len() > 0
            invariant
                self.path@ == short,
                done@.len() + self.errors@.len() == all.len(),
                self.errors@ == all.skip(done@.len() as int),
                forall|i: int| 0 <= i < done@.len() ==> shortens(all[i], #[trigger] done@[i], root@),
            decreases self.errors@.len(),
        {
            let ghost before = self.errors@;
            let e = self.errors.remove(0);
            assert(e == all[done@.len() as int]);
            assert(self.errors@ =~= all.skip(done@.len() + 1 as int));
            done.push(shorten_error(e, root));
        }
        self.errors = done;
    }
}

} // verus!

verus! {

/// What is reported of a page of the tree at `root`: its errors that the
/// ignore lists keep, looked up by the page's path inside the tree, with
/// paths shortened to that form unless the run is verbose. A page left
/// without errors gives nothing.
pub fn reported(file_error: FileError, root: &str, ctx: &CheckContext) -> (r: Option<FileError>)
    ensures
        match r {
            Some(f) => {
                let kept = kept_errors(*ctx, shortened(file_error.path@, root@), file_error.errors@);
                &&& kept.len() > 0
                &&& if ctx.verbose {
                    f.path == file_error.path && f.errors@ == kept
                } else {
                    &&& f.path@ == shortened(file_error.path@, root@)
                    &&& f.errors@.len() == kept.len()
                    &&& forall|i: int| 0 <= i < kept.len() ==> shortens(kept[i], #[trigger] f.errors@[i], root@)
                }
            },
            None => kept_errors(*ctx, shortened(file_error.path@, root@), file_error.errors@).len() == 0,
        },
{
    let relative = shorten_path(file_error.path.as_str(), root);
    let mut kept = match filter_ignored(file_error, &relative, ctx) {
        Some(f) => f,
        None => return None,
    };
    if !ctx.verbose {
        kept.shorten_all(root);
    }
    Some(kept)
}

} // verus!
