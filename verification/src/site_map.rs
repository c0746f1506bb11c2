//! The visited registry: recorded pages up to a fixed capacity, and the two
//! sets of URLs that are known without counting towards it.

use vstd::hash_map::StringHashMap;
use vstd::hash_set::StringHashSet;
use vstd::prelude::*;
use crate::crawler_datatypes::{texts, PageData};

verus! {

/// Mathematical state of the registry.
pub struct Registry {
    /// Pages fetched and parsed, each with its title.
    pub recorded: Map<Seq<char>, Option<Seq<char>>>,
    /// The URLs of the recorded pages in the order they were recorded in.
    pub order: Seq<Seq<char>>,
    /// URLs whose fetch failed.
    pub failed: Set<Seq<char>>,
    /// URLs known from an earlier run.
    pub preloaded: Set<Seq<char>>,
    /// The number of recorded pages at which the crawl is complete.
    pub capacity: nat,
}

impl Registry {
    /// The order names each recorded page once and no other, and no more
    /// pages are recorded than the capacity allows.
    pub open spec fn valid(self) -> bool {
        &&& self.order.no_duplicates()
        &&& self.order.to_set() == self.recorded.dom()
        &&& self.order.len() <= self.capacity
    }

    /// The number of recorded pages.
    pub open spec fn count(self) -> nat {
        self.order.len()
    }

    /// The crawl is complete: as many pages are recorded as were asked for.
    pub open spec fn saturated(self) -> bool {
        self.count() == self.capacity
    }

    /// `url` is recorded, failed or preloaded.
    pub open spec fn knows(self, url: Seq<char>) -> bool {
        self.recorded.contains_key(url) || self.failed.contains(url) || self.preloaded.contains(url)
    }

    /// `insert` records the page: it is neither turned away by a full
    /// registry nor recorded already.
    pub open spec fn admits(self, url: Seq<char>) -> bool {
        !self.saturated() && !self.recorded.contains_key(url)
    }

    /// The registry after `insert`.
    pub open spec fn insert(self, url: Seq<char>, data: Option<Seq<char>>) -> Registry {
        if self.admits(url) {
            Registry {
                recorded: self.recorded.insert(url, data),
                order: self.order.push(url),
                ..self
            }
        } else {
            self
        }
    }

    /// What `insert` answers: the registry is full already, or this page
    /// fills it.
    pub open spec fn insert_signal(self, url: Seq<char>) -> bool {
        self.saturated() || (self.admits(url) && self.count() + 1 == self.capacity)
    }

    pub open spec fn mark_failed(self, url: Seq<char>) -> Registry {
        Registry { failed: self.failed.insert(url), ..self }
    }

    pub open spec fn mark_preloaded(self, url: Seq<char>) -> Registry {
        Registry { preloaded: self.preloaded.insert(url), ..self }
    }
}

/// Every operation keeps a valid registry valid, and `insert` adds one to
/// the count exactly where it records the page.
pub proof fn lemma_operations_keep_valid(
    registry: Registry,
    url: Seq<char>,
    data: Option<Seq<char>>,
)
    requires
        registry.valid(),
    ensures
        registry.insert(url, data).valid(),
        registry.mark_failed(url).valid(),
        registry.mark_preloaded(url).valid(),
        registry.insert(url, data).count() == registry.count() + if registry.admits(url) {
            1nat
        } else {
            0nat
        },
{
    if registry.admits(url) {
        let order = registry.order;
        let grown = order.push(url);
        assert(!order.contains(url)) by {
            if order.contains(url) {
                assert(order.to_set().contains(url));
            }
        }
        assert(grown.to_set() =~= registry.recorded.insert(url, data).dom()) by {
            assert forall|other: Seq<char>| grown.to_set().contains(other) <==> (order.to_set().contains(
                other,
            ) || other == url) by {
                if grown.contains(other) {
                    let i = choose|i: int| 0 <= i < grown.len() && grown[i] == other;
                    if i < order.len() {
                        assert(order[i] == other);
                    }
                }
                if order.contains(other) {
                    let i = choose|i: int| 0 <= i < order.len() && order[i] == other;
                    assert(grown[i] == other);
                }
                if other == url {
                    assert(grown[order.len() as int] == other);
                }
            }
        }
    }
}

/// In a valid registry the recorded pages are finitely many, as many as the
/// count says.
pub proof fn lemma_count_of_recorded(registry: Registry)
    requires
        registry.valid(),
    ensures
        registry.recorded.dom().finite(),
        registry.recorded.len() == registry.count(),
{
    registry.order.unique_seq_to_set();
    vstd::seq_lib::seq_to_set_is_finite(registry.order);
}

/// Inserting a URL a second time records nothing: the registry stays as the
/// first insertion left it, whatever record comes with the second, and the
/// second answer only tells whether the registry is full.
pub proof fn lemma_insert_is_idempotent(
    registry: Registry,
    url: Seq<char>,
    first: Option<Seq<char>>,
    second: Option<Seq<char>>,
)
    requires
        registry.valid(),
    ensures
        registry.insert(url, first).insert(url, second) == registry.insert(url, first),
        registry.insert(url, first).insert_signal(url) == registry.insert(url, first).saturated(),
{
    lemma_operations_keep_valid(registry, url, first);
}

/// Once `insert` has answered that the crawl is complete, the registry is
/// full, and it stays full under every operation: each later `insert`
/// answers the same and records nothing, so that what was known is known
/// still.
pub proof fn lemma_saturation_is_final(
    registry: Registry,
    url: Seq<char>,
    data: Option<Seq<char>>,
    later: Seq<char>,
    record: Option<Seq<char>>,
)
    requires
        registry.valid(),
        registry.insert_signal(url),
    ensures
        ({
            let full = registry.insert(url, data);
            &&& full.saturated()
            &&& full.insert_signal(later)
            &&& full.insert(later, record) == full
            &&& full.mark_failed(later).saturated()
            &&& full.mark_preloaded(later).saturated()
            &&& forall|known: Seq<char>|
                full.knows(known) ==> #[trigger] full.insert(later, record).knows(known)
        }),
{
    lemma_operations_keep_valid(registry, url, data);
}

/// A URL is known right after it is recorded, marked failed or marked
/// preloaded. For `insert` this supposes that the registry recorded or
/// already knew the URL: a full registry turns an unknown URL away.
pub proof fn lemma_marked_urls_are_known(
    registry: Registry,
    url: Seq<char>,
    data: Option<Seq<char>>,
)
    ensures
        !registry.saturated() || registry.knows(url) ==> registry.insert(url, data).knows(url),
        registry.mark_failed(url).knows(url),
        registry.mark_preloaded(url).knows(url),
{
}

/// What is known stays known under every operation.
pub proof fn lemma_known_urls_stay_known(
    registry: Registry,
    known: Seq<char>,
    url: Seq<char>,
    data: Option<Seq<char>>,
)
    requires
        registry.knows(known),
    ensures
        registry.insert(url, data).knows(known),
        registry.mark_failed(url).knows(known),
        registry.mark_preloaded(url).knows(known),
{
}

/// The visited registry.
pub struct SiteMap {
    map: StringHashMap<PageData>,
    /// The recorded URLs in the order of their insertion.
    keys: Vec<String>,
    capacity: usize,
    bad_pages: StringHashSet,
    previously_searched: StringHashSet,
}

impl View for SiteMap {
    type V = Registry;

    closed spec fn view(&self) -> Registry {
        Registry {
            recorded: self.map@.map_values(|data: PageData| data@),
            order: texts(self.keys@),
            failed: self.bad_pages@,
            preloaded: self.previously_searched@,
            capacity: self.capacity as nat,
        }
    }
}

impl SiteMap {
    /// An empty registry that is complete at `capacity` recorded pages.
    pub fn new(capacity: u32) -> (site_map: SiteMap)
        ensures
            site_map@.valid(),
            site_map@ == (Registry {
                recorded: Map::empty(),
                order: Seq::empty(),
                failed: Set::empty(),
                preloaded: Set::empty(),
                capacity: capacity as nat,
            }),
    {
        let site_map = SiteMap {
            map: StringHashMap::new(),
            keys: Vec::new(),
            capacity: capacity as usize,
            bad_pages: StringHashSet::new(),
            previously_searched: StringHashSet::new(),
        };
        proof {
            assert(site_map@.recorded =~= Map::empty());
            assert(site_map@.order =~= Seq::empty());
            assert(site_map@.order.to_set() =~= site_map@.recorded.dom());
        }
        site_map
    }

    /// Records `data` for `key` unless the registry is full or holds the key
    /// already, and tells whether the crawl is complete.
    pub fn insert(&mut self, key: String, data: PageData) -> (done: bool)
        requires
            old(self)@.valid(),
        ensures
            final(self)@.valid(),
            final(self)@ == old(self)@.insert(key@, data@),
            done == old(self)@.insert_signal(key@),
    {
        if self.keys.len() == self.capacity {
            return true;
        }
        if self.map.contains_key(key.as_str()) {
            return false;
        }
        let ghost before = self@;
        self.keys.push(key.clone());
        self.map.insert(key, data);
        proof {
            lemma_operations_keep_valid(before, key@, data@);
            assert(self@.order =~= before.order.push(key@));
            assert(self@.recorded =~= before.recorded.insert(key@, data@));
        }
        self.keys.len() == self.capacity
    }

    /// Notes that fetching `bad_url` failed.
    pub fn insert_bad(&mut self, bad_url: String)
        ensures
            final(self)@ == old(self)@.mark_failed(bad_url@),
    {
        self.bad_pages.insert(bad_url);
    }

    /// Notes that `prev_url` was crawled in an earlier run.
    pub fn insert_previously(&mut self, prev_url: String)
        ensures
            final(self)@ == old(self)@.mark_preloaded(prev_url@),
    {
        self.previously_searched.insert(prev_url);
    }

    /// Tells whether `key` is recorded, failed or preloaded.
    pub fn contains_key(&self, key: &String) -> (known: bool)
        ensures
            known == self@.knows(key@),
    {
        self.map.contains_key(key.as_str()) || self.bad_pages.contains(key.as_str())
            || self.previously_searched.contains(key.as_str())
    }

    /// The number of recorded pages.
    pub fn len(&self) -> (count: usize)
        ensures
            count == self@.count(),
    {
        self.keys.len()
    }

    /// A copy of the recorded pages, each with its URL, in the order in
    /// which they were recorded.
    pub fn get_map(&self) -> (pages: Vec<(String, PageData)>)
        requires
            self@.valid(),
        ensures
            pages.len() == self@.count(),
            forall|i: int|
                0 <= i < pages.len() ==> (#[trigger] pages[i]).0@ == self@.order[i] && pages[i].1@
                    == self@.recorded[self@.order[i]],
    {
        let mut pages: Vec<(String, PageData)> = Vec::new();
        let mut at: usize = 0;
        while at < self.keys.len()
            invariant
                self@.valid(),
                at <= self.keys.len(),
                pages.len() == at,
                forall|i: int|
                    0 <= i < at ==> (#[trigger] pages[i]).0@ == self@.order[i] && pages[i].1@
                        == self@.recorded[self@.order[i]],
            decreases self.keys.len() - at,
        {
            let key = &self.keys[at];
            proof {
                assert(self@.order[at as int] == key@);
                assert(self@.order.to_set().contains(key@));
            }
            match self.map.get(key.as_str()) {
                Some(data) => {
                    pages.push((key.clone(), data.duplicate()));
                },
                None => {
                    assert(false);
                },
            }
            at += 1;
        }
        pages
    }
}

} // verus!
