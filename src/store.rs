//! The two tables behind the shortener: mappings from identifiers to long URLs,
//! and visit counters keyed by identifier.
use vstd::prelude::*;

verus! {

/// Why a store operation failed.
#[derive(Clone, Debug, PartialEq, Eq)]
pub enum StoreError {
    /// A mapping (or counter) already exists under this identifier.
    DuplicateId,
    /// A mapping already exists for this long URL.
    DuplicateUrl,
    /// A counter was asked for an identifier that has no mapping.
    UnknownId,
    /// An increment found no counter for the identifier.
    CounterMissing,
    /// An increment would exceed the counter's range.
    CounterOverflow,
    /// The external store failed; the message says why.
    Backend(String),
}

/// A mapping record: an identifier and the canonical long URL it stands for.
#[derive(Clone, Debug)]
pub struct UrlEntry {
    pub id: String,
    pub long_url: String,
}

/// A counter record: how often an identifier was resolved.
struct Stat {
    id: String,
    visits_count: u64,
}

/// `m` holds some identifier that maps to `url`.
pub open spec fn stores_url(m: Map<Seq<char>, Seq<char>>, url: Seq<char>) -> bool {
    exists|k: Seq<char>| m.contains_key(k) && m[k] == url
}

/// The store's constraints seen on its contents: long URLs are unique, and
/// every counter belongs to a mapping.
pub open spec fn consistent(links: Map<Seq<char>, Seq<char>>, visits: Map<Seq<char>, nat>) -> bool {
    &&& forall|a: Seq<char>, b: Seq<char>|
        links.contains_key(a) && links.contains_key(b) && #[trigger] links[a] == #[trigger] links[b]
            ==> a == b
    &&& forall|k: Seq<char>| visits.contains_key(k) ==> #[trigger] links.contains_key(k)
}

/// Every mapping has a counter.
pub open spec fn counted(links: Map<Seq<char>, Seq<char>>, visits: Map<Seq<char>, nat>) -> bool {
    forall|k: Seq<char>| links.contains_key(k) ==> #[trigger] visits.contains_key(k)
}

/// Every mapping has a counter that can still be incremented.
pub open spec fn paired(links: Map<Seq<char>, Seq<char>>, visits: Map<Seq<char>, nat>) -> bool {
    forall|k: Seq<char>|
        links.contains_key(k) ==> #[trigger] visits.contains_key(k) && visits[k] < u64::MAX
}

/// An in-memory store of mappings and counters, with the same constraints as
/// the persistent schema: unique identifiers, unique long URLs, and counters
/// that reference mappings.
pub struct UrlStore {
    links: Vec<UrlEntry>,
    stats: Vec<Stat>,
    link_map: Ghost<Map<Seq<char>, Seq<char>>>,
    visit_map: Ghost<Map<Seq<char>, nat>>,
}

impl UrlStore {
    /// Identifier to long URL, for every mapping record.
    pub closed spec fn links(&self) -> Map<Seq<char>, Seq<char>> {
        self.link_map@
    }

    /// Identifier to visit count, for every counter record.
    pub closed spec fn visits(&self) -> Map<Seq<char>, nat> {
        self.visit_map@
    }

    /// The vectors agree with `links` and `visits`; counter identifiers are distinct.
    pub closed spec fn inv(&self) -> bool {
        &&& forall|i: int|
            0 <= i < self.links@.len() ==> self.link_map@.contains_key(#[trigger] self.links@[i].id@)
                && self.link_map@[self.links@[i].id@] == self.links@[i].long_url@
        &&& forall|k: Seq<char>|
            #[trigger] self.link_map@.contains_key(k) ==> exists|i: int|
                0 <= i < self.links@.len() && self.links@[i].id@ == k
        &&& forall|i: int|
            0 <= i < self.stats@.len() ==> self.visit_map@.contains_key(#[trigger] self.stats@[i].id@)
                && self.visit_map@[self.stats@[i].id@] == self.stats@[i].visits_count as nat
        &&& forall|k: Seq<char>|
            #[trigger] self.visit_map@.contains_key(k) ==> exists|i: int|
                0 <= i < self.stats@.len() && self.stats@[i].id@ == k
        &&& forall|i: int, j: int|
            0 <= i < self.stats@.len() && 0 <= j < self.stats@.len() && i != j
                ==> #[trigger] self.stats@[i].id@ != #[trigger] self.stats@[j].id@
    }

    /// Well-formed: the representation matches the contents, and the contents
    /// are consistent.
    pub open spec fn wf(&self) -> bool {
        self.inv() && consistent(self.links(), self.visits())
    }

    /// An empty store.
    pub fn new() -> (r: UrlStore)
        ensures
            r.wf(),
            r.links() == Map::<Seq<char>, Seq<char>>::empty(),
            r.visits() == Map::<Seq<char>, nat>::empty(),
    {
        UrlStore {
            links: Vec::new(),
            stats: Vec::new(),
            link_map: Ghost(Map::empty()),
            visit_map: Ghost(Map::empty()),
        }
    }
}

/// The position of the counter record of `id`, if there is one.
fn stat_index(store: &UrlStore, id: &str) -> (r: Option<usize>)
    requires
        store.wf(),
    ensures
        match r {
            Some(i) => i < store.stats@.len() && store.stats@[i as int].id@ == id@,
            None => !store.visits().contains_key(id@),
        },
{
    let key = id.to_owned();
    let mut i: usize = 0;
    while i < store.stats.len()
        invariant
            store.wf(),
            key@ == id@,
            i <= store.stats@.len(),
            forall|j: int| 0 <= j < i ==> store.stats@[j].id@ != id@,
        decreases store.stats@.len() - i,
    {
        if store.stats[i].id == key {
            return Some(i);
        }
        i += 1;
    }
    None
}

/// Looks up the identifier of the mapping for `url` (an exact match).
pub fn find_id(store: &UrlStore, url: &str) -> (r: Option<String>)
    requires
        store.wf(),
    ensures
        match r {
            Some(id) => store.links().contains_key(id@) && store.links()[id@] == url@,
            None => !stores_url(store.links(), url@),
        },
{
    let key = url.to_owned();
    let mut i: usize = 0;
    while i < store.links.len()
        invariant
            store.wf(),
            key@ == url@,
            i <= store.links@.len(),
            forall|j: int| 0 <= j < i ==> store.links@[j].long_url@ != url@,
        decreases store.links@.len() - i,
    {
        if store.links[i].long_url == key {
            return Some(store.links[i].id.clone());
        }
        i += 1;
    }
    None
}

/// Looks up the long URL that identifier `id` maps to.
pub fn find_url(store: &UrlStore, id: &str) -> (r: Option<String>)
    requires
        store.wf(),
    ensures
        match r {
            Some(url) => store.links().contains_key(id@) && store.links()[id@] == url@,
            None => !store.links().contains_key(id@),
        },
{
    let key = id.to_owned();
    let mut i: usize = 0;
    while i < store.links.len()
        invariant
            store.wf(),
            key@ == id@,
            i <= store.links@.len(),
            forall|j: int| 0 <= j < i ==> store.links@[j].id@ != id@,
        decreases store.links@.len() - i,
    {
        if store.links[i].id == key {
            return Some(store.links[i].long_url.clone());
        }
        i += 1;
    }
    None
}

/// The value a counter holds after one visit, given the value read from the
/// store (`None`: no counter record). A missing counter is an integrity error;
/// a counter at its maximum is not wrapped.
pub fn next_visits_count(current: Option<u64>) -> (r: Result<u64, StoreError>)
    ensures
        match current {
            None => r == Err::<u64, StoreError>(StoreError::CounterMissing),
            Some(c) => if c == u64::MAX {
                r == Err::<u64, StoreError>(StoreError::CounterOverflow)
            } else {
                r == Ok::<u64, StoreError>((c + 1) as u64)
            },
        },
{
    match current {
        None => Err(StoreError::CounterMissing),
        Some(c) => if c == u64::MAX {
            Err(StoreError::CounterOverflow)
        } else {
            Ok(c + 1)
        },
    }
}

/// The outcome of a lookup as the workflows use it: a failed read counts as
/// "not found", so that a dedup check or a resolve fails open.
pub fn lookup_or_absent(found: Result<Option<String>, StoreError>) -> (r: Option<String>)
    ensures
        r == match found {
            Ok(o) => o,
            Err(_) => None::<String>,
        },
{
    match found {
        Ok(o) => o,
        Err(_) => None,
    }
}

/// The visit count of `id`, if it has a counter.
pub fn visits_count(store: &UrlStore, id: &str) -> (r: Option<u64>)
    requires
        store.wf(),
    ensures
        match r {
            Some(c) => store.visits().contains_key(id@) && store.visits()[id@] == c as nat,
            None => !store.visits().contains_key(id@),
        },
{
    match stat_index(store, id) {
        Some(i) => Some(store.stats[i].visits_count),
        None => None,
    }
}

/// Adds the mapping `entry.id -> entry.long_url`. Fails, changing nothing, when
/// the identifier or the long URL is already mapped.
pub fn insert_urls_entry(store: &mut UrlStore, entry: UrlEntry) -> (r: Result<(), StoreError>)
    requires
        old(store).wf(),
    ensures
        final(store).wf(),
        final(store).visits() == old(store).visits(),
        if old(store).links().contains_key(entry.id@) {
            r == Err::<(), StoreError>(StoreError::DuplicateId) && final(store).links() == old(
                store,
            ).links()
        } else if stores_url(old(store).links(), entry.long_url@) {
            r == Err::<(), StoreError>(StoreError::DuplicateUrl) && final(store).links() == old(
                store,
            ).links()
        } else {
            r == Ok::<(), StoreError>(()) && final(store).links() == old(store).links().insert(
                entry.id@,
                entry.long_url@,
            )
        },
{
    if find_url(store, entry.id.as_str()).is_some() {
        return Err(StoreError::DuplicateId);
    }
    if find_id(store, entry.long_url.as_str()).is_some() {
        return Err(StoreError::DuplicateUrl);
    }
    let ghost old_links = store.link_map@;
    let ghost old_link_vec = store.links@;
    let ghost id = entry.id@;
    let ghost url = entry.long_url@;
    store.link_map = Ghost(old_links.insert(id, url));
    store.links.push(entry);
    assert forall|k: Seq<char>| #[trigger] store.link_map@.contains_key(k) implies exists|i: int|
        0 <= i < store.links@.len() && store.links@[i].id@ == k by {
        if k == id {
            assert(store.links@[store.links@.len() - 1].id@ == k);
        } else {
            assert(old_links.contains_key(k));
            let j = choose|j: int| 0 <= j < old_link_vec.len() && old_link_vec[j].id@ == k;
            assert(store.links@[j] == old_link_vec[j]);
        }
    }
    assert forall|a: Seq<char>, b: Seq<char>|
        store.link_map@.contains_key(a) && store.link_map@.contains_key(b)
            && #[trigger] store.link_map@[a] == #[trigger] store.link_map@[b] implies a == b by {
        if a != id && b != id {
            assert(old_links[a] == old_links[b]);
        } else if a == id && b != id {
            assert(old_links.contains_key(b) && old_links[b] == url);
        } else if a != id && b == id {
            assert(old_links.contains_key(a) && old_links[a] == url);
        }
    }
    assert forall|i: int| 0 <= i < store.links@.len() implies store.link_map@.contains_key(
        #[trigger] store.links@[i].id@,
    ) && store.link_map@[store.links@[i].id@] == store.links@[i].long_url@ by {
        if i < old_link_vec.len() {
            assert(store.links@[i] == old_link_vec[i]);
            assert(old_links.contains_key(old_link_vec[i].id@));
        }
    }
    assert(store.stats@ == old(store).stats@);
    assert(store.visit_map@ == old(store).visit_map@);
    Ok(())
}

/// Adds a counter at zero for `entry.id`. Fails, changing nothing, when the
/// identifier has no mapping or already has a counter.
pub fn insert_stats_entry(store: &mut UrlStore, entry: UrlEntry) -> (r: Result<(), StoreError>)
    requires
        old(store).wf(),
    ensures
        final(store).wf(),
        final(store).links() == old(store).links(),
        if !old(store).links().contains_key(entry.id@) {
            r == Err::<(), StoreError>(StoreError::UnknownId) && final(store).visits() == old(
                store,
            ).visits()
        } else if old(store).visits().contains_key(entry.id@) {
            r == Err::<(), StoreError>(StoreError::DuplicateId) && final(store).visits() == old(
                store,
            ).visits()
        } else {
            r == Ok::<(), StoreError>(()) && final(store).visits() == old(store).visits().insert(
                entry.id@,
                0,
            )
        },
{
    if find_url(store, entry.id.as_str()).is_none() {
        return Err(StoreError::UnknownId);
    }
    if stat_index(store, entry.id.as_str()).is_some() {
        return Err(StoreError::DuplicateId);
    }
    let ghost old_visits = store.visit_map@;
    let ghost old_stats = store.stats@;
    let ghost id = entry.id@;
    store.visit_map = Ghost(old_visits.insert(id, 0));
    store.stats.push(Stat { id: entry.id, visits_count: 0 });
    assert forall|k: Seq<char>| #[trigger] store.visit_map@.contains_key(k) implies exists|i: int|
        0 <= i < store.stats@.len() && store.stats@[i].id@ == k by {
        if k == id {
            assert(store.stats@[store.stats@.len() - 1].id@ == k);
        } else {
            assert(old_visits.contains_key(k));
            let j = choose|j: int| 0 <= j < old_stats.len() && old_stats[j].id@ == k;
            assert(store.stats@[j] == old_stats[j]);
        }
    }
    assert forall|i: int| 0 <= i < store.stats@.len() implies store.visit_map@.contains_key(
        #[trigger] store.stats@[i].id@,
    ) && store.visit_map@[store.stats@[i].id@] == store.stats@[i].visits_count as nat by {
        if i < old_stats.len() {
            assert(store.stats@[i] == old_stats[i]);
            assert(old_visits.contains_key(old_stats[i].id@));
        }
    }
    assert forall|k: Seq<char>| #[trigger] store.visit_map@.contains_key(k) implies
        store.link_map@.contains_key(k) by {
        if k != id {
            assert(old_visits.contains_key(k));
        }
    }
    assert forall|i: int, j: int|
        0 <= i < store.stats@.len() && 0 <= j < store.stats@.len() && i != j
            implies #[trigger] store.stats@[i].id@ != #[trigger] store.stats@[j].id@ by {
        if i < old_stats.len() && j < old_stats.len() {
            assert(old_stats[i] == store.stats@[i]);
            assert(old_stats[j] == store.stats@[j]);
        } else if i < old_stats.len() {
            assert(old_stats[i] == store.stats@[i]);
            assert(old_visits.contains_key(old_stats[i].id@));
        } else {
            assert(old_stats[j] == store.stats@[j]);
            assert(old_visits.contains_key(old_stats[j].id@));
        }
    }
    assert(store.links@ == old(store).links@);
    assert(store.link_map@ == old(store).link_map@);
    Ok(())
}

/// Counts one visit of `id`: reads its counter and writes it back one higher.
/// Fails, changing nothing, when `id` has no counter or the counter is at its
/// maximum.
pub fn increment_visits_count(store: &mut UrlStore, id: &str) -> (r: Result<(), StoreError>)
    requires
        old(store).wf(),
    ensures
        final(store).wf(),
        final(store).links() == old(store).links(),
        if !old(store).visits().contains_key(id@) {
            r == Err::<(), StoreError>(StoreError::CounterMissing) && final(store).visits() == old(
                store,
            ).visits()
        } else if old(store).visits()[id@] >= u64::MAX {
            r == Err::<(), StoreError>(StoreError::CounterOverflow) && final(store).visits() == old(
                store,
            ).visits()
        } else {
            r == Ok::<(), StoreError>(()) && final(store).visits() == old(store).visits().insert(
                id@,
                old(store).visits()[id@] + 1,
            )
        },
{
    let idx = stat_index(store, id);
    let current = match idx {
        Some(i) => Some(store.stats[i].visits_count),
        None => None,
    };
    match next_visits_count(current) {
        Err(e) => Err(e),
        Ok(n) => {
            let i = idx.unwrap();
            let ghost old_visits = store.visit_map@;
            let ghost old_stats = store.stats@;
            let ghost key = old_stats[i as int].id@;
            let sid = store.stats[i].id.clone();
            assert(old_visits.contains_key(key));
            store.visit_map = Ghost(old_visits.insert(key, n as nat));
            store.stats.set(i, Stat { id: sid, visits_count: n });
            assert forall|j: int| 0 <= j < store.stats@.len() implies store.visit_map@.contains_key(
                #[trigger] store.stats@[j].id@,
            ) && store.visit_map@[store.stats@[j].id@] == store.stats@[j].visits_count as nat by {
                if j != i {
                    assert(old_stats[j] == store.stats@[j]);
                }
            }
            assert forall|k: Seq<char>| #[trigger] store.visit_map@.contains_key(k) implies exists|
                j: int,
            | 0 <= j < store.stats@.len() && store.stats@[j].id@ == k by {
                if k == key {
                    assert(store.stats@[i as int].id@ == k);
                } else {
                    assert(old_visits.contains_key(k));
                    let j = choose|j: int| 0 <= j < old_stats.len() && old_stats[j].id@ == k;
                    assert(store.stats@[j].id@ == k);
                }
            }
            assert forall|a: int, b: int|
                0 <= a < store.stats@.len() && 0 <= b < store.stats@.len() && a != b
                    implies #[trigger] store.stats@[a].id@ != #[trigger] store.stats@[b].id@ by {
                assert(old_stats[a].id@ == store.stats@[a].id@);
                assert(old_stats[b].id@ == store.stats@[b].id@);
            }
            assert forall|k: Seq<char>| #[trigger] store.visit_map@.contains_key(k) implies
                store.link_map@.contains_key(k) by {
                if k != key {
                    assert(old_visits.contains_key(k));
                }
            }
            assert(store.links@ == old(store).links@);
            assert(store.link_map@ == old(store).link_map@);
            Ok(())
        },
    }
}

} // verus!
