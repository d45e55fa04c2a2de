//! What is read out of a page: the targets of its links, the ids
//! it defines, and where a redirect page sends its reader.
use vstd::prelude::*;
use crate::address::{resolve_href, resolved};
use crate::fragment::{contains_id, has_id};
use crate::text::{after_first, split_first, views};

verus! {

/// The values of `attribute` on the elements that `selector` matches in
/// `html`, in document order, as `lol_html` finds them.
pub uninterp spec fn selected_values(html: Seq<char>, selector: Seq<char>, attribute: Seq<char>) -> Option<Seq<Seq<char>>>;

/// Relies on lol_html::rewrite_str with one element handler: the values of
/// `attribute` on the elements that `selector` matches, or `None` when the
/// selector or the document is refused.
#[verifier::external_body]
fn select_attribute(html: &str, selector: &str, attribute: &str) -> (r: Option<Vec<String>>)
    ensures
        match r {
            Some(v) => selected_values(html@, selector@, attribute@) == Some(views(v@)),
            None => selected_values(html@, selector@, attribute@) is None,
        },
{
    let selector: lol_html::Selector = selector.parse().ok()?;
    let mut values: Vec<String> = Vec::new();
    let handlers = lol_html::ElementContentHandlers::default().element(
        |el: &mut lol_html::html_content::Element<'_, '_>| {
            values.extend(el.get_attribute(attribute));
            Ok(())
        },
    );
    let settings = lol_html::RewriteStrSettings::new()
        .append_element_content_handler((std::borrow::Cow::Owned(selector), handlers));
    lol_html::rewrite_str(html, settings).ok()?;
    Some(values)
}

/// The values of one attribute on the elements one selector matches; none
/// when the page cannot be read as HTML.
pub open spec fn values_or_none(found: Option<Seq<Seq<char>>>) -> Seq<Seq<char>> {
    match found {
        Some(v) => v,
        None => Seq::empty(),
    }
}

/// The `href` of every `<a href>` of the page, in document order.
pub open spec fn hrefs_of(html: Seq<char>) -> Seq<Seq<char>> {
    values_or_none(selected_values(html, "a[href]"@, "href"@))
}

/// The `id` of every element of the page that has one, in document order.
pub open spec fn ids_of(html: Seq<char>) -> Seq<Seq<char>> {
    values_or_none(selected_values(html, "*[id]"@, "id"@))
}

/// Where a redirect page sends its reader: what follows the first `=` in the
/// `content` of its first `<meta http-equiv="refresh">`.
pub open spec fn redirect_of(html: Seq<char>) -> Option<Seq<char>> {
    let contents = values_or_none(selected_values(html, "meta[http-equiv=\"refresh\"]"@, "content"@));
    if contents.len() > 0 {
        after_first(contents[0], '=')
    } else {
        None
    }
}

fn selected_or_none(html: &str, selector: &str, attribute: &str) -> (r: Vec<String>)
    ensures
        views(r@) == values_or_none(selected_values(html@, selector@, attribute@)),
{
    match select_attribute(html, selector, attribute) {
        Some(v) => v,
        None => {
            let v: Vec<String> = Vec::new();
            assert(views(v@) =~= Seq::<Seq<char>>::empty());
            v
        },
    }
}

/// `u` is where some href of `hrefs` resolves to.
pub open spec fn is_target_of(root_url: Seq<char>, page_url: Seq<char>, hrefs: Seq<Seq<char>>, u: Seq<char>) -> bool {
    exists|j: int| 0 <= j < hrefs.len() && resolved(root_url, page_url, #[trigger] hrefs[j]) == Some(u)
}

/// `targets` lists, each once, where the hrefs of `html` resolve to.
pub open spec fn are_targets(targets: Seq<String>, html: Seq<char>, root_url: Seq<char>, page_url: Seq<char>) -> bool {
    &&& forall|k: int| 0 <= k < targets.len() ==> is_target_of(root_url, page_url, hrefs_of(html), #[trigger] targets[k]@)
    &&& forall|j: int| 0 <= j < hrefs_of(html).len()
            && #[trigger] resolved(root_url, page_url, hrefs_of(html)[j]) is Some
            ==> has_id(targets, resolved(root_url, page_url, hrefs_of(html)[j])->0)
    &&& forall|a: int, b: int| 0 <= a < b < targets.len() ==> targets[a]@ != targets[b]@
}

/// The targets of all `<a href>` links of a page, each once: hrefs resolved
/// as `resolved` says, those that do not resolve dropped. A page that
/// cannot be read as HTML gives `None`.
pub fn read_a_hrefs(html: &str, root_url: &str, page_url: &str) -> (r: Option<Vec<String>>)
    ensures
        match selected_values(html@, "a[href]"@, "href"@) {
            Some(_) => r matches Some(v) && are_targets(v@, html@, root_url@, page_url@),
            None => r is None,
        },
{
    match select_attribute(html, "a[href]", "href") {
        Some(hrefs) => Some(targets_of(&hrefs, html, root_url, page_url)),
        None => None,
    }
}

/// The targets of all `<a href>` links of a page, each once: hrefs resolved
/// as `resolved` says, those that do not resolve dropped. A page that
/// cannot be read as HTML has none.
pub fn parse_a_hrefs(html: &str, root_url: &str, page_url: &str) -> (r: Vec<String>)
    ensures
        are_targets(r@, html@, root_url@, page_url@),
{
    let hrefs = selected_or_none(html, "a[href]", "href");
    targets_of(&hrefs, html, root_url, page_url)
}

fn targets_of(hrefs: &Vec<String>, html: &str, root_url: &str, page_url: &str) -> (r: Vec<String>)
    requires
        views(hrefs@) == hrefs_of(html@),
    ensures
        are_targets(r@, html@, root_url@, page_url@),
{
    let ghost h = hrefs_of(html@);
    let mut targets: Vec<String> = Vec::new();
    let mut i: usize = 0;
    while i < hrefs.len()
        invariant
            i <= hrefs@.len() == h.len(),
            views(hrefs@) == h,
            forall|k: int| 0 <= k < targets@.len() ==> is_target_of(root_url@, page_url@, h.take(i as int), #[trigger] targets@[k]@),
            forall|j: int| 0 <= j < i && #[trigger] resolved(root_url@, page_url@, h[j]) is Some
                ==> has_id(targets@, resolved(root_url@, page_url@, h[j])->0),
            forall|a: int, b: int| 0 <= a < b < targets@.len() ==> targets@[a]@ != targets@[b]@,
        decreases hrefs@.len() - i,
    {
        assert(hrefs@[i as int]@ == h[i as int]);
        let ghost before = targets@;
        assert forall|k: int| 0 <= k < before.len() implies is_target_of(root_url@, page_url@, h.take(i + 1), #[trigger] before[k]@) by {
            assert(is_target_of(root_url@, page_url@, h.take(i as int), before[k]@));
            let j = choose|j: int| 0 <= j < i && resolved(root_url@, page_url@, #[trigger] h.take(i as int)[j]) == Some(before[k]@);
            assert(h.take(i + 1)[j] == h.take(i as int)[j]);
        }
        match resolve_href(root_url, page_url, hrefs[i].as_str()) {
            Some(u) => {
                if !contains_id(&targets, u.as_str()) {
                    targets.push(u);
                    assert(h.take(i + 1)[i as int] == h[i as int]);
                    assert(is_target_of(root_url@, page_url@, h.take(i + 1), u@));
                    assert forall|k: int| 0 <= k < targets@.len() implies is_target_of(root_url@, page_url@, h.take(i + 1), #[trigger] targets@[k]@) by {
                        if k < before.len() {
                            assert(targets@[k] == before[k]);
                        }
                    }
                    assert forall|j: int| 0 <= j <= i && #[trigger] resolved(root_url@, page_url@, h[j]) is Some
                        implies has_id(targets@, resolved(root_url@, page_url@, h[j])->0) by {
                        if j < i {
                            let x = choose|x: int| 0 <= x < before.len() && (#[trigger] before[x])@
                                == resolved(root_url@, page_url@, h[j])->0;
                            assert(targets@[x]@ == before[x]@);
                        } else {
                            assert(targets@[before.len() as int]@ == u@);
                        }
                    }
                }
            },
            None => {},
        }
        i = i + 1;
    }
    assert(h.take(i as int) =~= h);
    targets
}

/// The ids that a page defines, in document order.
pub fn parse_fragments(html: &str) -> (r: Vec<String>)
    ensures
        views(r@) == ids_of(html@),
{
    selected_or_none(html, "*[id]", "id")
}

/// Where a redirect page sends its reader, if it is one.
pub fn parse_redirect(html: &str) -> (r: Option<String>)
    ensures
        match r {
            Some(t) => redirect_of(html@) == Some(t@),
            None => redirect_of(html@) is None,
        },
{
    let contents = selected_or_none(html, "meta[http-equiv=\"refresh\"]", "content");
    if contents.len() > 0 {
        assert(contents@[0]@ == views(contents@)[0]);
        split_first(contents[0].as_str(), '=').1
    } else {
        None
    }
}

} // verus!
