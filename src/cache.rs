//! The per-run store of the ids that fetched documents define.
use vstd::prelude::*;
use cached::{CachedPeek, Cached, LruCache};
use crate::address::{split_fragment, without_fragment_of};
use crate::errors::{same_error, CheckError, Link};
use crate::fragment::{fragment_in_ids, fragment_verdict};
use crate::html::{ids_of, parse_fragments};
use crate::text::{first_at, lemma_first_at_unique, views};

verus! {

/// What fetching a document gave: the ids it defines, or the error met.
pub type FetchedIds = Result<Vec<String>, CheckError>;

/// The size-bounded, least-recently-used store of the `cached` crate, seen
/// only through `lru_entries` and `lru_capacity`.
#[verifier::external_type_specification]
#[verifier::external_body]
#[verifier::reject_recursive_types(K)]
#[verifier::reject_recursive_types(V)]
#[verifier::reject_recursive_types(S)]
pub struct ExLruCache<K, V, S>(LruCache<K, V, S>);

/// The store behind the fragment cache.
pub type LruStore = LruCache<String, FetchedIds>;

/// The entries that a `cached::LruCache` holds, by key.
pub uninterp spec fn lru_entries(c: LruCache<String, FetchedIds>) -> Map<Seq<char>, FetchedIds>;

/// The number of entries that a `cached::LruCache` holds at most.
pub uninterp spec fn lru_capacity(c: LruCache<String, FetchedIds>) -> nat;

/// Relies on cached::LruCache::builder with max_size and build: an empty
/// cache of that capacity, or `None` for a zero size or a failed allocation.
#[verifier::external_body]
fn new_lru(size: usize) -> (r: Option<LruStore>)
    ensures
        r matches Some(c) ==> size > 0 && lru_entries(c).dom() == Set::<Seq<char>>::empty()
            && lru_capacity(c) == size,
{
    LruCache::builder().max_size(size).build().ok()
}

/// Relies on cached::CachedPeek::cache_peek: the entry of a key, leaving the cache as it is.
#[verifier::external_body]
fn lru_peek<'a>(c: &'a LruStore, key: &String) -> (r: Option<&'a FetchedIds>)
    ensures
        match r {
            Some(v) => lru_entries(*c).contains_key(key@) && lru_entries(*c)[key@] == *v,
            None => !lru_entries(*c).contains_key(key@),
        },
{
    c.cache_peek(key)
}

/// Relies on cached::Cached::cache_set on an LruCache: the key then holds the
/// value, and entries beyond the capacity are evicted, never the new one.
#[verifier::external_body]
fn lru_set(c: &mut LruStore, key: String, value: FetchedIds)
    ensures
        lru_entries(*final(c)).contains_key(key@),
        lru_entries(*final(c))[key@] == value,
        lru_entries(*final(c)).submap_of(lru_entries(*old(c)).insert(key@, value)),
        lru_capacity(*final(c)) == lru_capacity(*old(c)),
{
    c.cache_set(key, value);
}

/// The identity under which a target's ids are kept: its path, or its URL
/// without the fragment.
pub open spec fn cache_key(link: Link) -> Seq<char> {
    match link {
        Link::File(p) => p@,
        Link::Http(u) => without_fragment_of(u@),
    }
}

/// What a cache entry holds for a fetched page.
pub open spec fn holds_page(entry: FetchedIds, page: Result<String, CheckError>) -> bool {
    match (entry, page) {
        (Ok(ids), Ok(html)) => views(ids@) == ids_of(html@),
        (Err(e), Err(f)) => e == f,
        _ => false,
    }
}

/// A bounded store from target identity to the ids of the target, or the
/// error met fetching it. Failures are kept as well as successes, so no
/// target is fetched twice while its entry stays.
pub struct FragmentCache {
    store: LruStore,
}

impl FragmentCache {
    /// The entries, by target identity.
    pub closed spec fn entries(&self) -> Map<Seq<char>, FetchedIds> {
        lru_entries(self.store)
    }

    /// The number of targets kept at most.
    pub closed spec fn capacity(&self) -> nat {
        lru_capacity(self.store)
    }

    /// An empty store for at most `size` targets; `None` for a zero size or
    /// when the room cannot be had.
    pub fn with_capacity(size: usize) -> (r: Option<FragmentCache>)
        ensures
            size == 0 ==> r is None,
            r matches Some(c) ==> c.entries().dom() == Set::<Seq<char>>::empty()
                && c.capacity() == size,
    {
        match new_lru(size) {
            Some(store) => Some(FragmentCache { store }),
            None => None,
        }
    }

    /// The identity under which the ids of a link's target are kept.
    pub fn key_of(link: &Link) -> (r: String)
        ensures
            r@ == cache_key(*link),
    {
        match link {
            Link::File(p) => p.clone(),
            Link::Http(u) => split_fragment(u.as_str()).0,
        }
    }

    /// Whether the target of `link` has been fetched (and is still kept).
    pub fn is_known(&self, link: &Link) -> (r: bool)
        ensures
            r == self.entries().contains_key(cache_key(*link)),
    {
        let key = FragmentCache::key_of(link);
        lru_peek(&self.store, &key).is_some()
    }

    /// Keeps what fetching the target of `link` gave: the ids of the page, or
    /// the error met.
    pub fn store_page(&mut self, link: &Link, page: Result<String, CheckError>)
        ensures
            stored(*old(self), *final(self), *link, page),
            final(self).capacity() == old(self).capacity(),
    {
        let key = FragmentCache::key_of(link);
        let entry: FetchedIds = match page {
            Ok(html) => Ok(parse_fragments(html.as_str())),
            Err(e) => Err(e),
        };
        lru_set(&mut self.store, key, entry);
    }

    /// Checks `fragment` of `link` against the kept ids of its target; `None`
    /// when the target has not been fetched yet. A kept fetch error is
    /// the answer itself.
    pub fn check_fragment(&self, link: &Link, fragment: &str) -> (r: Option<Result<(), CheckError>>)
        ensures
            r is Some <==> self.entries().contains_key(cache_key(*link)),
            r matches Some(res) ==> match self.entries()[cache_key(*link)] {
                Ok(ids) => fragment_verdict(*link, fragment@, ids@, res),
                Err(e) => res matches Err(got) && same_error(got, e),
            },
    {
        let key = FragmentCache::key_of(link);
        match lru_peek(&self.store, &key) {
            Some(Ok(ids)) => Some(fragment_in_ids(link, fragment, ids)),
            Some(Err(e)) => Some(Err(e.duplicate())),
            None => None,
        }
    }
}

/// Checks `fragment` of `link` against the ids of its target, calling
/// `fetch_html` for the target's page only when no earlier link had it
/// fetched; what the fetch gives, a failure too, is kept for later links.
/// An empty fragment names the top of the page and fetches nothing.
pub fn is_fragment_available<F>(cache: &mut FragmentCache, link: &Link, fragment: &str, fetch_html: F) -> (r: Result<(), CheckError>)
    where
        F: FnOnce() -> Result<String, CheckError>,
    requires
        fetch_html.requires(()),
    ensures
        fragment@.len() == 0 ==> r is Ok && *final(cache) == *old(cache),
        fragment@.len() > 0 && old(cache).entries().contains_key(cache_key(*link)) ==> *final(cache)
            == *old(cache),
        fragment@.len() > 0 && !old(cache).entries().contains_key(cache_key(*link)) ==> exists|
            page: Result<String, CheckError>,
        | fetch_html.ensures((), page) && #[trigger] stored(*old(cache), *final(cache), *link, page),
        fragment@.len() > 0 ==> final(cache).entries().contains_key(cache_key(*link)),
        fragment@.len() > 0 ==> match final(cache).entries()[cache_key(*link)] {
            Ok(ids) => fragment_verdict(*link, fragment@, ids@, r),
            Err(e) => r matches Err(got) && same_error(got, e),
        },
{
    if fragment.is_empty() {
        return Ok(());
    }
    if !cache.is_known(link) {
        let page = fetch_html();
        cache.store_page(link, page);
    }
    cache.check_fragment(link, fragment).unwrap()
}

/// What `store_page` leaves: `after` is `before` with what fetching the
/// target of `link` gave.
pub open spec fn stored(before: FragmentCache, after: FragmentCache, link: Link, page: Result<String, CheckError>) -> bool {
    &&& after.entries().contains_key(cache_key(link))
    &&& holds_page(after.entries()[cache_key(link)], page)
    &&& after.entries().submap_of(before.entries().insert(cache_key(link), after.entries()[cache_key(link)]))
}

/// Once what fetching a target gave is kept, every other link to that
/// target, whatever its fragment, finds it in the store: by the contract of
/// `is_fragment_available` its check then leaves the store as it is and
/// does not fetch again. A failed fetch is kept and answers those links as
/// well.
pub proof fn lemma_kept_fetch_answers_every_link(
    before: FragmentCache,
    after: FragmentCache,
    first: Link,
    page: Result<String, CheckError>,
    other: Link,
)
    requires
        stored(before, after, first, page),
        cache_key(other) == cache_key(first),
    ensures
        after.entries().contains_key(cache_key(other)),
        holds_page(after.entries()[cache_key(other)], page),
        page is Err ==> after.entries()[cache_key(other)] is Err,
{
}

/// Two URLs that differ only in their fragment name one target: the part
/// before the fragment.
pub proof fn lemma_fragment_does_not_split_target(base: Seq<char>, f: Seq<char>, g: Seq<char>)
    requires
        !base.contains('#'),
    ensures
        without_fragment_of(base + seq!['#'] + f) == base,
        without_fragment_of(base + seq!['#'] + g) == base,
{
    lemma_before_hash(base, f);
    lemma_before_hash(base, g);
}

proof fn lemma_before_hash(base: Seq<char>, f: Seq<char>)
    requires
        !base.contains('#'),
    ensures
        without_fragment_of(base + seq!['#'] + f) == base,
{
    let u = base + seq!['#'] + f;
    let n = base.len() as int;
    assert(u[n] == '#');
    assert forall|j: int| 0 <= j < n implies u[j] != '#' by {
        assert(u[j] == base[j]);
    }
    assert(first_at(u, '#', n));
    assert forall|i: int| first_at(u, '#', i) implies i == n by {
        lemma_first_at_unique(u, '#', i, n);
    }
    assert(u.take(n) =~= base);
}

} // verus!
