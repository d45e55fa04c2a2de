//! Unresolved intra-doc links: the generator leaves the text of such a link
//! in the page as `[<code>…</code>]`.
use vstd::prelude::*;
use crate::context::CheckContext;
use crate::errors::CheckError;
use crate::text::{chars_of, slice_string, views};

verus! {

pub open spec fn opening() -> Seq<char> {
    seq!['[', '<', 'c', 'o', 'd', 'e', '>']
}

pub open spec fn closing() -> Seq<char> {
    seq!['<', '/', 'c', 'o', 'd', 'e', '>', ']']
}

/// `t` holds the closing `</code>]` at `q`.
pub open spec fn closes_at(t: Seq<char>, q: int) -> bool {
    0 <= q && q + 8 <= t.len() && t.subrange(q, q + 8) == closing()
}

/// No line break in `t[a..b]`.
pub open spec fn on_one_line(t: Seq<char>, a: int, b: int) -> bool {
    forall|j: int| a <= j < b ==> t[j] != '\n'
}

/// A marker starts at `p` and ends at `e`: `[<code>` at `p`, then the last
/// `</code>]` on the same line, which ends at `e`.
pub open spec fn marker_at(t: Seq<char>, p: int, e: int) -> bool {
    &&& 0 <= p
    &&& p + 7 <= t.len()
    &&& t.subrange(p, p + 7) == opening()
    &&& p + 7 <= e - 8
    &&& closes_at(t, e - 8)
    &&& on_one_line(t, p + 7, e - 8)
    &&& forall|q: int| e - 8 < q && closes_at(t, q) ==> !on_one_line(t, p + 7, q)
}

/// The markers of `t` from position `from` on, leftmost first, each search
/// going on after the end of the previous marker.
pub open spec fn markers_from(t: Seq<char>, from: int) -> Seq<Seq<char>>
    decreases t.len() - from,
{
    if from < 0 || from >= t.len() {
        Seq::empty()
    } else if exists|e: int| marker_at(t, from, e) {
        let e = choose|e: int| marker_at(t, from, e);
        seq![t.subrange(from, e)] + markers_from(t, e)
    } else {
        markers_from(t, from + 1)
    }
}

/// The unresolved intra-doc link markers of a page, in order.
pub open spec fn markers_of(html: Seq<char>) -> Seq<Seq<char>> {
    markers_from(html, 0)
}

proof fn lemma_marker_unique(t: Seq<char>, p: int, e1: int, e2: int)
    requires
        marker_at(t, p, e1),
        marker_at(t, p, e2),
    ensures
        e1 == e2,
{
    if e1 < e2 {
        assert(!on_one_line(t, p + 7, e2 - 8));
    } else if e2 < e1 {
        assert(!on_one_line(t, p + 7, e1 - 8));
    }
}

fn has_at(t: &Vec<char>, at: usize, s: &Vec<char>) -> (r: bool)
    ensures
        r == (at + s@.len() <= t@.len() && t@.subrange(at as int, at + s@.len()) == s@),
{
    if at > t.len() || s.len() > t.len() - at {
        return false;
    }
    let tn = t.len();
    let mut i: usize = 0;
    while i < s.len()
        invariant
            i <= s@.len(),
            tn == t@.len(),
            at + s@.len() <= tn,
            forall|j: int| 0 <= j < i ==> t@[at + j] == s@[j],
        decreases s@.len() - i,
    {
        if t[at + i] != s[i] {
            assert(t@.subrange(at as int, at + s@.len())[i as int] != s@[i as int]);
            return false;
        }
        i = i + 1;
    }
    assert(t@.subrange(at as int, at + s@.len()) =~= s@);
    true
}

/// The end of the marker that starts at `p`, if one does.
fn marker_end(t: &Vec<char>, p: usize, open: &Vec<char>, close: &Vec<char>) -> (r: Option<usize>)
    requires
        open@ == opening(),
        close@ == closing(),
    ensures
        match r {
            Some(e) => marker_at(t@, p as int, e as int),
            None => forall|e: int| !marker_at(t@, p as int, e),
        },
{
    if !has_at(t, p, open) {
        return None;
    }
    let n = t.len();
    let start = p + 7;
    let mut best: Option<usize> = None;
    let mut j: usize = start;
    while j < n && t[j] != '\n'
        invariant
            start == p + 7 <= j <= n == t@.len(),
            close@ == closing(),
            on_one_line(t@, start as int, j as int),
            match best {
                Some(b) => start <= b < j && closes_at(t@, b as int)
                    && forall|q: int| b < q < j ==> !closes_at(t@, q),
                None => forall|q: int| start <= q < j ==> !closes_at(t@, q),
            },
        decreases n - j,
    {
        if has_at(t, j, close) {
            best = Some(j);
        }
        j = j + 1;
    }
    match best {
        Some(b) => {
            assert forall|q: int| b < q && closes_at(t@, q) implies !on_one_line(t@, start as int, q) by {
                if q >= j {
                    if q == j {
                        assert(t@.subrange(q, q + 8)[0] == '<');
                    } else {
                        assert(t@[j as int] == '\n');
                    }
                }
            }
            assert(marker_at(t@, p as int, b + 8));
            Some(b + 8)
        },
        None => {
            assert forall|e: int| !marker_at(t@, p as int, e) by {
                if marker_at(t@, p as int, e) {
                    let q = e - 8;
                    if q >= j {
                        if q == j {
                            assert(t@.subrange(q, q + 8)[0] == '<');
                        } else {
                            assert(t@[j as int] == '\n');
                        }
                    }
                }
            }
            None
        },
    }
}

/// The texts of the unresolved intra-doc link markers of a page, in order.
pub fn intra_doc_markers(html: &str) -> (r: Vec<String>)
    ensures
        views(r@) == markers_of(html@),
{
    let t = chars_of(html);
    let open: Vec<char> = vec!['[', '<', 'c', 'o', 'd', 'e', '>'];
    let close: Vec<char> = vec!['<', '/', 'c', 'o', 'd', 'e', '>', ']'];
    assert(open@ =~= opening());
    assert(close@ =~= closing());
    let n = t.len();
    let mut found: Vec<String> = Vec::new();
    let mut p: usize = 0;
    while p < n
        invariant
            p <= n == t@.len(),
            t@ == html@,
            open@ == opening(),
            close@ == closing(),
            views(found@) + markers_from(t@, p as int) == markers_from(t@, 0),
        decreases n - p,
    {
        match marker_end(&t, p, &open, &close) {
            Some(e) => {
                proof {
                    assert forall|x: int| marker_at(t@, p as int, x) implies x == e by {
                        lemma_marker_unique(t@, p as int, x, e as int);
                    }
                }
                let m = slice_string(html, p, e);
                let ghost before = views(found@);
                found.push(m);
                assert(views(found@) =~= before.push(m@));
                assert(markers_from(t@, p as int) == seq![t@.subrange(p as int, e as int)] + markers_from(t@, e as int));
                assert(views(found@) + markers_from(t@, e as int) =~= before + markers_from(t@, p as int));
                p = e;
            },
            None => {
                p = p + 1;
            },
        }
    }
    assert(markers_from(t@, p as int) =~= Seq::<Seq<char>>::empty());
    assert(views(found@) + markers_from(t@, p as int) =~= views(found@));
    found
}

/// `e` reports the marker `text`.
pub open spec fn reports_marker(e: CheckError, text: Seq<char>) -> bool {
    match e {
        CheckError::IntraDocLink(t) => t@ == text,
        _ => false,
    }
}

/// One `IntraDocLink` error per unresolved intra-doc link marker of the
/// page, in order, when the context asks for them; none otherwise.
pub fn broken_intra_doc_links(html: &str, ctx: &CheckContext) -> (r: Vec<CheckError>)
    ensures
        ctx.check_intra_doc_links ==> r@.len() == markers_of(html@).len() && forall|i: int| 0 <= i < r@.len()
            ==> reports_marker(#[trigger] r@[i], markers_of(html@)[i]),
        !ctx.check_intra_doc_links ==> r@.len() == 0,
{
    let mut errors: Vec<CheckError> = Vec::new();
    if !ctx.check_intra_doc_links {
        return errors;
    }
    let mut markers = intra_doc_markers(html);
    let ghost all = views(markers@);
    while markers.len() > 0
        invariant
            errors@.len() + markers@.len() == all.len(),
            views(markers@) == all.skip(errors@.len() as int),
            forall|k: int| 0 <= k < errors@.len() ==> reports_marker(#[trigger] errors@[k], all[k]),
        decreases markers@.len(),
    {
        let ghost before = markers@;
        let m = markers.remove(0);
        assert(m@ == views(before)[0]);
        assert(views(markers@) =~= views(before).drop_first());
        errors.push(CheckError::IntraDocLink(m));
    }
    errors
}

} // verus!
