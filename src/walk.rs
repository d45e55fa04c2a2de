//! Which pages of a documentation tree are checked, and the links of each.
use vstd::prelude::*;
use crate::address::{directory_form, directory_url, file_url, file_url_of};
use crate::fragment::{contains_id, has_id};
use crate::html::{are_targets, read_a_hrefs, selected_values};
use crate::text::{chars_of, last_at, lemma_last_at_unique, rfind_char};

verus! {

/// The last component of a path.
pub open spec fn file_name_of(path: Seq<char>) -> Seq<char> {
    if exists|i: int| last_at(path, '/', i) {
        path.skip((choose|i: int| last_at(path, '/', i)) + 1)
    } else {
        path
    }
}

/// The file name ends in an `.html` extension (a name that is only
/// `.html` is a hidden file without one).
pub open spec fn is_html_name(path: Seq<char>) -> bool {
    let name = file_name_of(path);
    name.len() > 5 && name.skip(name.len() - 5) == ".html"@
}

/// Whether the file at `path` is a page to check: its extension is `html`.
pub fn is_html_file(path: &str) -> (r: bool)
    ensures
        r == is_html_name(path@),
{
    let v = chars_of(path);
    let n = v.len();
    let start: usize = match rfind_char(&v, '/') {
        Some(i) => {
            proof {
                assert forall|j: int| last_at(path@, '/', j) implies j == i by {
                    lemma_last_at_unique(path@, '/', i as int, j);
                }
            }
            i + 1
        },
        None => 0,
    };
    let ghost name = file_name_of(path@);
    assert(name =~= v@.skip(start as int));
    if n - start <= 5 {
        return false;
    }
    proof {
        reveal_strlit(".html");
    }
    let b = v[n - 5] == '.' && v[n - 4] == 'h' && v[n - 3] == 't' && v[n - 2] == 'm' && v[n - 1] == 'l';
    let ghost tail = name.skip(name.len() - 5);
    assert(tail =~= v@.subrange(n - 5, n as int));
    if b {
        assert(tail =~= ".html"@);
    } else {
        assert(tail != ".html"@) by {
            if tail == ".html"@ {
                assert(tail[0] == '.' && tail[1] == 'h' && tail[2] == 't' && tail[3] == 'm' && tail[4] == 'l');
            }
        }
    }
    b
}

/// The links of the page at `page_path` in the tree at `root_dir`: where its
/// hrefs resolve, each once. `None` when either path has no `file` URL (it
/// is not absolute) or the page cannot be read as HTML.
pub fn page_targets(html: &str, root_dir: &str, page_path: &str) -> (r: Option<Vec<String>>)
    ensures
        match (file_url_of(root_dir@), file_url_of(page_path@), selected_values(html@, "a[href]"@, "href"@)) {
            (Some(d), Some(f), Some(_)) => r matches Some(v) && are_targets(v@, html@, directory_form(d), f),
            _ => r is None,
        },
{
    let root_url = match directory_url(root_dir) {
        Some(u) => u,
        None => return None,
    };
    let page_url = match file_url(page_path) {
        Some(u) => u,
        None => return None,
    };
    read_a_hrefs(html, root_url.as_str(), page_url.as_str())
}

/// Whether a build target has documentation of its own to check: a binary
/// only when all its kinds are `bin`; anything else unless one of its kinds
/// is `example`, `test` or `bench`.
pub open spec fn documents(crate_types: Seq<String>, kinds: Seq<String>) -> bool {
    if has_id(crate_types, "bin"@) {
        forall|i: int| 0 <= i < kinds.len() ==> (#[trigger] kinds[i])@ == "bin"@
    } else {
        forall|i: int| 0 <= i < kinds.len() ==> !((#[trigger] kinds[i])@ == "example"@
            || kinds[i]@ == "test"@ || kinds[i]@ == "bench"@)
    }
}

/// Whether a build target with these crate types and kinds has
/// documentation of its own to check.
pub fn has_docs(crate_types: &Vec<String>, kinds: &Vec<String>) -> (r: bool)
    ensures
        r == documents(crate_types@, kinds@),
{
    let bin = "bin".to_string();
    let example = "example".to_string();
    let test = "test".to_string();
    let bench = "bench".to_string();
    let is_bin = contains_id(crate_types, "bin");
    let mut i: usize = 0;
    while i < kinds.len()
        invariant
            i <= kinds@.len(),
            bin@ == "bin"@,
            example@ == "example"@,
            test@ == "test"@,
            bench@ == "bench"@,
            is_bin == has_id(crate_types@, "bin"@),
            is_bin ==> forall|j: int| 0 <= j < i ==> (#[trigger] kinds@[j])@ == "bin"@,
            !is_bin ==> forall|j: int| 0 <= j < i ==> !((#[trigger] kinds@[j])@ == "example"@
                || kinds@[j]@ == "test"@ || kinds@[j]@ == "bench"@),
        decreases kinds@.len() - i,
    {
        let k = &kinds[i];
        if is_bin {
            if *k != bin {
                return false;
            }
        } else if *k == example || *k == test || *k == bench {
            return false;
        }
        i = i + 1;
    }
    true
}

} // verus!
