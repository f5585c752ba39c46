//! Laws that relate several calls of the workflows.
use vstd::prelude::*;
use crate::canonical::parsed_url;
use crate::ident::is_identifier;
use crate::store::{counted, paired, stores_url, UrlStore};
use crate::workflow::{
    has_identifier_key, redirected, same_contents, shortened, RedirectError, ShortenError,
};

verus! {

/// Two short URLs with the same prefix are equal only when their identifiers are.
proof fn lemma_prefix_cancel(b: Seq<char>, x: Seq<char>, y: Seq<char>)
    ensures
        b + x == b + y ==> x == y,
{
    if b + x == b + y {
        assert((b + x).subrange(b.len() as int, (b + x).len() as int) =~= x);
        assert((b + y).subrange(b.len() as int, (b + y).len() as int) =~= y);
    }
}

/// After a successful shorten of `raw`, the store maps the answer's identifier
/// to the canonical form of `raw`.
proof fn lemma_shortened_maps(
    pre: UrlStore,
    base: Seq<char>,
    raw: Seq<char>,
    post: UrlStore,
    r: Result<String, ShortenError>,
) -> (id: Seq<char>)
    requires
        pre.wf(),
        shortened(pre, base, raw, post, r),
        r is Ok,
    ensures
        parsed_url(raw) is Some,
        r->Ok_0@ == base + id,
        post.links().contains_key(id),
        post.links()[id] == parsed_url(raw)->Some_0,
{
    let c = parsed_url(raw)->Some_0;
    if stores_url(pre.links(), c) {
        choose|id: Seq<char>|
            #![trigger pre.links()[id]]
            pre.links().contains_key(id) && pre.links()[id] == c && r->Ok_0@ == base + id
    } else {
        let id = choose|id: Seq<char>|
            #![trigger pre.links().insert(id, c)]
            is_identifier(id) && !pre.links().contains_key(id) && r->Ok_0@ == base
                + id && post.links() == pre.links().insert(id, c) && post.visits()
                == pre.visits().insert(id, 0);
        id
    }
}

/// Shortening the same URL twice in a row gives the same short URL, and the
/// second call changes nothing.
pub proof fn lemma_shorten_idempotent(
    pre: UrlStore,
    mid: UrlStore,
    post: UrlStore,
    base: Seq<char>,
    raw: Seq<char>,
    r1: Result<String, ShortenError>,
    r2: Result<String, ShortenError>,
)
    requires
        pre.wf(),
        mid.wf(),
        shortened(pre, base, raw, mid, r1),
        shortened(mid, base, raw, post, r2),
        r1 is Ok,
    ensures
        r2 is Ok,
        r2->Ok_0@ == r1->Ok_0@,
        same_contents(mid, post),
{
    let c = parsed_url(raw)->Some_0;
    let id1 = lemma_shortened_maps(pre, base, raw, mid, r1);
    assert(stores_url(mid.links(), c));
    let id2 = choose|id: Seq<char>|
        #![trigger mid.links()[id]]
        mid.links().contains_key(id) && mid.links()[id] == c && r2->Ok_0@ == base + id;
    assert(mid.links()[id1] == mid.links()[id2]);
}

/// Round trip: the identifier that a shorten of `raw` answers resolves to the
/// canonical form of `raw`, and, where every mapping had a counter below its
/// maximum, redirecting it succeeds with that URL.
pub proof fn lemma_round_trip(
    pre: UrlStore,
    mid: UrlStore,
    post: UrlStore,
    base: Seq<char>,
    raw: Seq<char>,
    id: Seq<char>,
    r1: Result<String, ShortenError>,
    r2: Result<String, RedirectError>,
)
    requires
        pre.wf(),
        shortened(pre, base, raw, mid, r1),
        r1 is Ok,
        r1->Ok_0@ == base + id,
        redirected(mid, id, post, r2),
    ensures
        parsed_url(raw) is Some,
        mid.links().contains_key(id),
        mid.links()[id] == parsed_url(raw)->Some_0,
        paired(pre.links(), pre.visits()) ==> r2 is Ok && r2->Ok_0@ == parsed_url(raw)->Some_0,
{
    let k = lemma_shortened_maps(pre, base, raw, mid, r1);
    lemma_prefix_cancel(base, id, k);
    let c = parsed_url(raw)->Some_0;
    if paired(pre.links(), pre.visits()) {
        if stores_url(pre.links(), c) {
            assert(pre.visits().contains_key(id));
        } else {
            assert(mid.visits().contains_key(id));
        }
    }
}

/// Two URLs with different canonical forms, shortened one after the other
/// and both successfully, get different short URLs.
pub proof fn lemma_distinct_urls_distinct_ids(
    pre: UrlStore,
    mid: UrlStore,
    post: UrlStore,
    base: Seq<char>,
    raw1: Seq<char>,
    raw2: Seq<char>,
    r1: Result<String, ShortenError>,
    r2: Result<String, ShortenError>,
)
    requires
        pre.wf(),
        mid.wf(),
        shortened(pre, base, raw1, mid, r1),
        shortened(mid, base, raw2, post, r2),
        r1 is Ok,
        r2 is Ok,
        parsed_url(raw1) != parsed_url(raw2),
    ensures
        r1->Ok_0@ != r2->Ok_0@,
{
    let id1 = lemma_shortened_maps(pre, base, raw1, mid, r1);
    let c2 = parsed_url(raw2)->Some_0;
    if stores_url(mid.links(), c2) {
        let id2 = choose|id: Seq<char>|
            #![trigger mid.links()[id]]
            mid.links().contains_key(id) && mid.links()[id] == c2 && r2->Ok_0@ == base + id;
        lemma_prefix_cancel(base, id1, id2);
    } else {
        let id2 = choose|id: Seq<char>|
            #![trigger mid.links().insert(id, c2)]
            is_identifier(id) && !mid.links().contains_key(id) && r2->Ok_0@ == base
                + id && post.links() == mid.links().insert(id, c2) && post.visits()
                == mid.visits().insert(id, 0);
        lemma_prefix_cancel(base, id1, id2);
    }
}

/// A URL shortened for the first time starts with a visit count of zero.
pub proof fn lemma_new_link_starts_at_zero(
    pre: UrlStore,
    post: UrlStore,
    base: Seq<char>,
    raw: Seq<char>,
    id: Seq<char>,
    r: Result<String, ShortenError>,
)
    requires
        pre.wf(),
        shortened(pre, base, raw, post, r),
        r is Ok,
        r->Ok_0@ == base + id,
        !stores_url(pre.links(), parsed_url(raw)->Some_0),
    ensures
        post.visits().contains_key(id),
        post.visits()[id] == 0,
{
    let k = lemma_shortened_maps(pre, base, raw, post, r);
    lemma_prefix_cancel(base, id, k);
}

/// A redirect of a mapped identifier whose counter is below its maximum
/// succeeds with the mapped URL, raises that counter by exactly one and
/// changes nothing else.
pub proof fn lemma_redirect_counts_one(
    pre: UrlStore,
    post: UrlStore,
    id: Seq<char>,
    r: Result<String, RedirectError>,
)
    requires
        redirected(pre, id, post, r),
        pre.links().contains_key(id),
        pre.visits().contains_key(id),
        pre.visits()[id] < u64::MAX,
    ensures
        r is Ok,
        r->Ok_0@ == pre.links()[id],
        post.visits()[id] == pre.visits()[id] + 1,
        post.links() == pre.links(),
        forall|k: Seq<char>| k != id ==> #[trigger] post.visits().contains_key(k)
            == pre.visits().contains_key(k) && post.visits()[k] == pre.visits()[k],
{
}

/// Shortening a well-formed URL on a store where no mapping uses an
/// identifier-shaped key always succeeds: no draw can collide.
pub proof fn lemma_shorten_succeeds_without_identifier_keys(
    pre: UrlStore,
    post: UrlStore,
    base: Seq<char>,
    raw: Seq<char>,
    r: Result<String, ShortenError>,
)
    requires
        shortened(pre, base, raw, post, r),
        parsed_url(raw) is Some,
        !has_identifier_key(pre.links()),
    ensures
        r is Ok,
{
}

/// A shorten keeps "every mapping has a counter" where it held before.
pub proof fn lemma_shorten_keeps_counters(
    pre: UrlStore,
    post: UrlStore,
    base: Seq<char>,
    raw: Seq<char>,
    r: Result<String, ShortenError>,
)
    requires
        shortened(pre, base, raw, post, r),
        counted(pre.links(), pre.visits()),
    ensures
        counted(post.links(), post.visits()),
{
    if parsed_url(raw) is Some && !stores_url(pre.links(), parsed_url(raw)->Some_0) && r is Ok {
        let c = parsed_url(raw)->Some_0;
        let id = choose|id: Seq<char>|
            #![trigger pre.links().insert(id, c)]
            is_identifier(id) && !pre.links().contains_key(id) && r->Ok_0@ == base + id
                && post.links() == pre.links().insert(id, c) && post.visits()
                == pre.visits().insert(id, 0);
        assert forall|k: Seq<char>| post.links().contains_key(k) implies #[trigger]
            post.visits().contains_key(k) by {
            if k != id {
                assert(pre.links().contains_key(k));
            }
        }
    }
}

/// A redirect keeps "every mapping has a counter" where it held before.
pub proof fn lemma_redirect_keeps_counters(
    pre: UrlStore,
    post: UrlStore,
    id: Seq<char>,
    r: Result<String, RedirectError>,
)
    requires
        redirected(pre, id, post, r),
        counted(pre.links(), pre.visits()),
    ensures
        counted(post.links(), post.visits()),
{
}

/// On an empty store: shortening a URL succeeds with a counter at zero, two
/// redirects of its identifier each yield the canonical URL and bring the
/// counter to one and then two, and a redirect of an identifier that was
/// never shortened is not found and changes nothing.
pub proof fn lemma_shorten_then_redirects(
    s0: UrlStore,
    s1: UrlStore,
    s2: UrlStore,
    s3: UrlStore,
    s4: UrlStore,
    base: Seq<char>,
    raw: Seq<char>,
    id: Seq<char>,
    other: Seq<char>,
    r1: Result<String, ShortenError>,
    r2: Result<String, RedirectError>,
    r3: Result<String, RedirectError>,
    r4: Result<String, RedirectError>,
)
    requires
        s0.wf(),
        s0.links() == Map::<Seq<char>, Seq<char>>::empty(),
        s0.visits() == Map::<Seq<char>, nat>::empty(),
        parsed_url(raw) is Some,
        shortened(s0, base, raw, s1, r1),
        match r1 {
            Ok(s) => s@ == base + id,
            Err(_) => true,
        },
        redirected(s1, id, s2, r2),
        redirected(s2, id, s3, r3),
        other != id,
        redirected(s3, other, s4, r4),
    ensures
        r1 is Ok,
        s1.visits()[id] == 0,
        r2 is Ok && r2->Ok_0@ == parsed_url(raw)->Some_0,
        s2.visits()[id] == 1,
        r3 is Ok && r3->Ok_0@ == parsed_url(raw)->Some_0,
        s3.visits()[id] == 2,
        r4 == Err::<String, RedirectError>(RedirectError::NotFound),
        same_contents(s3, s4),
{
    let c = parsed_url(raw)->Some_0;
    assert(!stores_url(s0.links(), c));
    assert(!has_identifier_key(s0.links()));
    let k = lemma_shortened_maps(s0, base, raw, s1, r1);
    lemma_prefix_cancel(base, id, k);
    assert(s1.links() =~= Map::<Seq<char>, Seq<char>>::empty().insert(id, c));
    assert(s1.visits() =~= Map::<Seq<char>, nat>::empty().insert(id, 0));
    assert(!s3.links().contains_key(other));
}

/// Redirecting an identifier that no mapping uses reports not-found and
/// touches no counter.
pub proof fn lemma_unknown_id_not_found(
    pre: UrlStore,
    post: UrlStore,
    id: Seq<char>,
    r: Result<String, RedirectError>,
)
    requires
        redirected(pre, id, post, r),
        !pre.links().contains_key(id),
    ensures
        r == Err::<String, RedirectError>(RedirectError::NotFound),
        same_contents(pre, post),
{
}

/// Shortening text that is not a URL reports a client-input error and stores
/// nothing.
pub proof fn lemma_malformed_url_rejected(
    pre: UrlStore,
    post: UrlStore,
    base: Seq<char>,
    raw: Seq<char>,
    r: Result<String, ShortenError>,
)
    requires
        shortened(pre, base, raw, post, r),
        parsed_url(raw) is None,
    ensures
        r is Err,
        r->Err_0 is InvalidUrl,
        same_contents(pre, post),
{
}

} // verus!
