//! The shorten and redirect workflows, written as steps: each step takes what
//! the store answered and says what to ask it next, or how the request ends.
//! `get_short_url` and `redirect_url` run the steps against a `UrlStore`; a
//! host with another store runs the same steps against it.
use vstd::prelude::*;
use crate::canonical::{canonicalize, parsed_url};
use crate::ident::{generate_id, is_identifier};
use crate::model::{AppState, Url};
use crate::store::{
    find_id, find_url, increment_visits_count, insert_stats_entry, insert_urls_entry, stores_url,
    StoreError, UrlEntry, UrlStore,
};

verus! {

/// Why a shorten request failed.
#[derive(Clone, Debug, PartialEq, Eq)]
pub enum ShortenError {
    /// The input is not a well-formed URL; the parser's message.
    InvalidUrl(String),
    /// The generated identifier is already in use.
    Collision,
    /// Writing the mapping or its counter failed.
    Store(StoreError),
}

/// Why a redirect request failed.
#[derive(Clone, Debug, PartialEq, Eq)]
pub enum RedirectError {
    /// No mapping exists for the identifier.
    NotFound,
    /// The visit could not be counted.
    Store(StoreError),
}

/// A shorten request in progress, named by what it waits for.
#[derive(Clone, Debug)]
pub enum ShortenStage {
    /// Waits for the identifier already mapped to this canonical URL, if any.
    Dedup(String),
    /// Waits for the long URL mapped to the candidate identifier (second), if any.
    CheckCandidate(String, String),
    /// Waits for the outcome of inserting the mapping from the identifier
    /// (second) to the canonical URL (first).
    SaveMapping(String, String),
    /// Waits for the outcome of inserting a zero counter for the identifier (second).
    SaveCounter(String, String),
}

/// What a shorten request does next: wait on the store, or end with the
/// identifier or an error.
#[derive(Debug)]
pub enum ShortenStep {
    Pending(ShortenStage),
    Done(Result<String, ShortenError>),
}

/// A redirect request in progress, named by what it waits for.
#[derive(Clone, Debug)]
pub enum RedirectStage {
    /// Waits for the long URL mapped to the identifier, if any.
    Resolve(String),
    /// Waits for the outcome of counting a visit of the identifier (first),
    /// which resolved to the long URL (second).
    Count(String, String),
}

/// What a redirect request does next: wait on the store, or end with the
/// long URL to redirect to or an error.
#[derive(Debug)]
pub enum RedirectStep {
    Pending(RedirectStage),
    Done(Result<String, RedirectError>),
}

/// Starts a shorten request for the text `raw`: a malformed URL ends it at
/// once; otherwise the canonical URL is looked up first.
pub fn shorten_start(raw: &str) -> (r: ShortenStep)
    ensures
        match parsed_url(raw@) {
            None => match r {
                ShortenStep::Done(Err(ShortenError::InvalidUrl(_))) => true,
                _ => false,
            },
            Some(c) => match r {
                ShortenStep::Pending(ShortenStage::Dedup(u)) => u@ == c,
                _ => false,
            },
        },
{
    match canonicalize(raw) {
        Err(msg) => ShortenStep::Done(Err(ShortenError::InvalidUrl(msg))),
        Ok(c) => ShortenStep::Pending(ShortenStage::Dedup(c)),
    }
}

/// Advances a shorten request that waited on a lookup. A URL already mapped
/// yields its identifier; otherwise a fresh candidate is drawn and checked.
/// A candidate that is already mapped is a collision, and ends the request.
pub fn shorten_on_lookup(stage: ShortenStage, found: Option<String>) -> (r: ShortenStep)
    requires
        stage is Dedup || stage is CheckCandidate,
    ensures
        match stage {
            ShortenStage::Dedup(url) => match found {
                Some(id) => r == ShortenStep::Done(Ok(id)),
                None => match r {
                    ShortenStep::Pending(ShortenStage::CheckCandidate(u, id)) => u == url
                        && is_identifier(id@),
                    _ => false,
                },
            },
            ShortenStage::CheckCandidate(url, id) => match found {
                Some(_) => r == ShortenStep::Done(Err(ShortenError::Collision)),
                None => r == ShortenStep::Pending(ShortenStage::SaveMapping(url, id)),
            },
            _ => true,
        },
{
    match stage {
        ShortenStage::Dedup(url) => match found {
            Some(id) => ShortenStep::Done(Ok(id)),
            None => ShortenStep::Pending(ShortenStage::CheckCandidate(url, generate_id())),
        },
        ShortenStage::CheckCandidate(url, id) => match found {
            Some(_) => ShortenStep::Done(Err(ShortenError::Collision)),
            None => ShortenStep::Pending(ShortenStage::SaveMapping(url, id)),
        },
        other => ShortenStep::Pending(other),
    }
}

/// Advances a shorten request that waited on a write: the mapping is written
/// first, then its counter; a failed write ends the request with that error.
pub fn shorten_on_write(stage: ShortenStage, written: Result<(), StoreError>) -> (r: ShortenStep)
    requires
        stage is SaveMapping || stage is SaveCounter,
    ensures
        match stage {
            ShortenStage::SaveMapping(url, id) => match written {
                Ok(()) => r == ShortenStep::Pending(ShortenStage::SaveCounter(url, id)),
                Err(e) => r == ShortenStep::Done(Err(ShortenError::Store(e))),
            },
            ShortenStage::SaveCounter(url, id) => match written {
                Ok(()) => r == ShortenStep::Done(Ok(id)),
                Err(e) => r == ShortenStep::Done(Err(ShortenError::Store(e))),
            },
            _ => true,
        },
{
    match stage {
        ShortenStage::SaveMapping(url, id) => match written {
            Ok(()) => ShortenStep::Pending(ShortenStage::SaveCounter(url, id)),
            Err(e) => ShortenStep::Done(Err(ShortenError::Store(e))),
        },
        ShortenStage::SaveCounter(_, id) => match written {
            Ok(()) => ShortenStep::Done(Ok(id)),
            Err(e) => ShortenStep::Done(Err(ShortenError::Store(e))),
        },
        other => ShortenStep::Pending(other),
    }
}

/// Advances a redirect request that waited on the lookup of its identifier:
/// an unknown identifier ends it; a known one has its visit counted next.
pub fn redirect_on_lookup(stage: RedirectStage, found: Option<String>) -> (r: RedirectStep)
    requires
        stage is Resolve,
    ensures
        match stage {
            RedirectStage::Resolve(id) => match found {
                None => r == RedirectStep::Done(Err(RedirectError::NotFound)),
                Some(url) => r == RedirectStep::Pending(RedirectStage::Count(id, url)),
            },
            _ => true,
        },
{
    match stage {
        RedirectStage::Resolve(id) => match found {
            None => RedirectStep::Done(Err(RedirectError::NotFound)),
            Some(url) => RedirectStep::Pending(RedirectStage::Count(id, url)),
        },
        other => RedirectStep::Pending(other),
    }
}

/// Advances a redirect request that waited on counting its visit: it
/// redirects only once the visit is counted.
pub fn redirect_on_write(stage: RedirectStage, written: Result<(), StoreError>) -> (r: RedirectStep)
    requires
        stage is Count,
    ensures
        match stage {
            RedirectStage::Count(_, url) => match written {
                Ok(()) => r == RedirectStep::Done(Ok(url)),
                Err(e) => r == RedirectStep::Done(Err(RedirectError::Store(e))),
            },
            _ => true,
        },
{
    match stage {
        RedirectStage::Count(_, url) => match written {
            Ok(()) => RedirectStep::Done(Ok(url)),
            Err(e) => RedirectStep::Done(Err(RedirectError::Store(e))),
        },
        other => RedirectStep::Pending(other),
    }
}

/// The store's contents are the same in `a` and `b`.
pub open spec fn same_contents(a: UrlStore, b: UrlStore) -> bool {
    a.links() == b.links() && a.visits() == b.visits()
}

/// Some mapping already uses a key of identifier shape, so a drawn candidate
/// can collide. On a store without one, every draw is free.
pub open spec fn has_identifier_key(links: Map<Seq<char>, Seq<char>>) -> bool {
    exists|k: Seq<char>| is_identifier(k) && #[trigger] links.contains_key(k)
}

/// How a shorten request of `raw` ends on a store that held `pre` and is left
/// holding `post`, with `r` the answer and `base` the prefix of short URLs.
/// A malformed URL is refused; a URL already mapped yields its short URL; a
/// new one gets a fresh identifier, its mapping and a counter at zero, unless
/// the drawn identifier was taken, which can only happen where some mapping
/// uses an identifier-shaped key.
pub open spec fn shortened(
    pre: UrlStore,
    base: Seq<char>,
    raw: Seq<char>,
    post: UrlStore,
    r: Result<String, ShortenError>,
) -> bool {
    match parsed_url(raw) {
        None => same_contents(pre, post) && match r {
            Err(ShortenError::InvalidUrl(_)) => true,
            _ => false,
        },
        Some(c) => if stores_url(pre.links(), c) {
            same_contents(pre, post) && match r {
                Ok(s) => exists|id: Seq<char>|
                    #![trigger pre.links()[id]]
                    pre.links().contains_key(id) && pre.links()[id] == c && s@ == base + id,
                Err(_) => false,
            }
        } else {
            match r {
                Ok(s) => exists|id: Seq<char>|
                    #![trigger pre.links().insert(id, c)]
                    is_identifier(id) && !pre.links().contains_key(id) && s@ == base + id
                        && post.links() == pre.links().insert(id, c) && post.visits()
                        == pre.visits().insert(id, 0),
                Err(e) => e == ShortenError::Collision && same_contents(pre, post)
                    && has_identifier_key(pre.links()),
            }
        },
    }
}

/// How a redirect of `id` ends on a store that held `pre` and is left holding
/// `post`: an unknown identifier is not found; a known one has its visit
/// counted and yields its long URL; a counter that is missing or at its
/// maximum fails the request.
pub open spec fn redirected(
    pre: UrlStore,
    id: Seq<char>,
    post: UrlStore,
    r: Result<String, RedirectError>,
) -> bool {
    if !pre.links().contains_key(id) {
        r == Err::<String, RedirectError>(RedirectError::NotFound) && same_contents(pre, post)
    } else if !pre.visits().contains_key(id) {
        r == Err::<String, RedirectError>(RedirectError::Store(StoreError::CounterMissing))
            && same_contents(pre, post)
    } else if pre.visits()[id] >= u64::MAX {
        r == Err::<String, RedirectError>(RedirectError::Store(StoreError::CounterOverflow))
            && same_contents(pre, post)
    } else {
        &&& r is Ok
        &&& r->Ok_0@ == pre.links()[id]
        &&& post.links() == pre.links()
        &&& post.visits() == pre.visits().insert(id, pre.visits()[id] + 1)
    }
}

/// Where a shorten request of `raw` stands while it runs against a store that
/// held `pre` and now holds `cur`.
spec fn shorten_progress(pre: UrlStore, raw: Seq<char>, cur: UrlStore, step: ShortenStep) -> bool {
    match step {
        ShortenStep::Pending(ShortenStage::Dedup(u)) => parsed_url(raw) == Some(u@)
            && same_contents(pre, cur),
        ShortenStep::Pending(ShortenStage::CheckCandidate(u, id)) => parsed_url(raw) == Some(u@)
            && !stores_url(pre.links(), u@) && is_identifier(id@) && same_contents(pre, cur),
        ShortenStep::Pending(ShortenStage::SaveMapping(u, id)) => parsed_url(raw) == Some(u@)
            && !stores_url(pre.links(), u@) && is_identifier(id@) && !pre.links().contains_key(id@)
            && same_contents(pre, cur),
        ShortenStep::Pending(ShortenStage::SaveCounter(u, id)) => parsed_url(raw) == Some(u@)
            && !stores_url(pre.links(), u@) && is_identifier(id@) && !pre.links().contains_key(id@)
            && cur.links() == pre.links().insert(id@, u@) && cur.visits() == pre.visits(),
        ShortenStep::Done(r) => shortened(pre, Seq::empty(), raw, cur, r),
    }
}

spec fn shorten_rank(step: ShortenStep) -> nat {
    match step {
        ShortenStep::Pending(ShortenStage::Dedup(_)) => 4,
        ShortenStep::Pending(ShortenStage::CheckCandidate(_, _)) => 3,
        ShortenStep::Pending(ShortenStage::SaveMapping(_, _)) => 2,
        ShortenStep::Pending(ShortenStage::SaveCounter(_, _)) => 1,
        ShortenStep::Done(_) => 0,
    }
}

/// Shortens `url.long_url` against `store`: answers the full short URL
/// (`state.base_url` followed by the identifier), or why it could not.
pub fn get_short_url(store: &mut UrlStore, state: &AppState, url: &Url) -> (r: Result<
    String,
    ShortenError,
>)
    requires
        old(store).wf(),
    ensures
        final(store).wf(),
        shortened(*old(store), state.base_url@, url.long_url@, *final(store), r),
{
    let ghost pre = *store;
    let ghost raw = url.long_url@;
    let mut step = shorten_start(url.long_url.as_str());
    loop
        invariant
            store.wf(),
            pre.wf(),
            pre == *old(store),
            raw == url.long_url@,
            shorten_progress(pre, raw, *store, step),
        decreases shorten_rank(step),
    {
        match step {
            ShortenStep::Done(res) => {
                return match res {
                    Ok(id) => {
                        let s = state.short_url(id.as_str());
                        proof {
                            let b = state.base_url@;
                            assert(Seq::<char>::empty() + id@ =~= id@);
                            if stores_url(pre.links(), parsed_url(raw)->Some_0) {
                                let k = choose|k: Seq<char>|
                                    #![trigger pre.links()[k]]
                                    pre.links().contains_key(k) && pre.links()[k]
                                        == parsed_url(raw)->Some_0 && id@ == Seq::empty() + k;
                                assert(s@ == b + k);
                                assert(shortened(pre, b, raw, *store, Ok(s)));
                            } else {
                                let c = parsed_url(raw)->Some_0;
                                let k = choose|k: Seq<char>|
                                    #![trigger pre.links().insert(k, c)]
                                    is_identifier(k) && !pre.links().contains_key(k) && id@
                                        == Seq::empty() + k && store.links() == pre.links().insert(
                                        k,
                                        c,
                                    ) && store.visits() == pre.visits().insert(k, 0);
                                assert(s@ == b + k);
                                assert(shortened(pre, b, raw, *store, Ok(s)));
                            }
                        }
                        Ok(s)
                    },
                    Err(e) => Err(e),
                };
            },
            ShortenStep::Pending(stage) => {
                let ghost before = *store;
                step =
                match stage {
                    ShortenStage::Dedup(u) => {
                        let found = find_id(store, u.as_str());
                        let ghost g = found;
                        let ghost url = u@;
                        let next = shorten_on_lookup(ShortenStage::Dedup(u), found);
                        proof {
                            if g is Some {
                                let fid = g->Some_0@;
                                assert(pre.links().contains_key(fid) && pre.links()[fid] == url);
                                assert(Seq::<char>::empty() + fid =~= fid);
                            }
                        }
                        next
                    },
                    ShortenStage::CheckCandidate(u, id) => {
                        let found = find_url(store, id.as_str());
                        proof {
                            if found is Some {
                                assert(is_identifier(id@) && pre.links().contains_key(id@));
                            }
                        }
                        shorten_on_lookup(ShortenStage::CheckCandidate(u, id), found)
                    },
                    ShortenStage::SaveMapping(u, id) => {
                        let written = insert_urls_entry(
                            store,
                            UrlEntry { id: id.clone(), long_url: u.clone() },
                        );
                        shorten_on_write(ShortenStage::SaveMapping(u, id), written)
                    },
                    ShortenStage::SaveCounter(u, id) => {
                        let written = insert_stats_entry(
                            store,
                            UrlEntry { id: id.clone(), long_url: u.clone() },
                        );
                        let ghost key = id@;
                        let next = shorten_on_write(ShortenStage::SaveCounter(u, id), written);
                        proof {
                            assert(!pre.visits().contains_key(key));
                            assert(Seq::<char>::empty() + key =~= key);
                        }
                        next
                    },
                };
            },
        }
    }
}

/// Resolves identifier `id` against `store` and counts the visit: answers the
/// long URL to redirect to, or why it could not.
pub fn redirect_url(store: &mut UrlStore, id: &str) -> (r: Result<String, RedirectError>)
    requires
        old(store).wf(),
    ensures
        final(store).wf(),
        redirected(*old(store), id@, *final(store), r),
{
    let found = find_url(store, id);
    match redirect_on_lookup(RedirectStage::Resolve(id.to_owned()), found) {
        RedirectStep::Done(r) => r,
        RedirectStep::Pending(stage) => match stage {
            RedirectStage::Count(key, url) => {
                let written = increment_visits_count(store, key.as_str());
                match redirect_on_write(RedirectStage::Count(key, url), written) {
                    RedirectStep::Done(r) => r,
                    RedirectStep::Pending(_) => Err(RedirectError::NotFound),
                }
            },
            RedirectStage::Resolve(_) => Err(RedirectError::NotFound),
        },
    }
}

/// Keeps the candidate identifier `id` if no mapping uses it yet.
pub fn keep_if_free(store: &UrlStore, id: String) -> (r: Option<String>)
    requires
        store.wf(),
    ensures
        match r {
            Some(k) => k == id && !store.links().contains_key(id@),
            None => store.links().contains_key(id@),
        },
{
    if find_url(store, id.as_str()).is_none() {
        Some(id)
    } else {
        None
    }
}

/// Draws a candidate identifier and keeps it only if no mapping uses it yet.
/// On a store without identifier-shaped keys it always succeeds.
pub fn create_id(store: &UrlStore) -> (r: Option<String>)
    requires
        store.wf(),
    ensures
        match r {
            Some(id) => is_identifier(id@) && !store.links().contains_key(id@),
            None => has_identifier_key(store.links()),
        },
{
    let id = generate_id();
    let ghost drawn = id@;
    let r = keep_if_free(store, id);
    proof {
        if r is None {
            assert(is_identifier(drawn) && store.links().contains_key(drawn));
        }
    }
    r
}

} // verus!
