//! One worker's decisions. The worker itself neither fetches nor waits: it
//! is told what happened, updates the registry and the frontiers, and says
//! what to do next.

use vstd::prelude::*;
use crate::crawler_datatypes::{texts, ParsedPage};
use crate::link_list::{room, LinkList};
use crate::local_urls::{Cursor, LocalUrls};
use crate::site_map::{lemma_operations_keep_valid, Registry, SiteMap};

verus! {

/// Where a worker stands in its cycle.
#[derive(Clone, Copy, Debug, PartialEq, Eq, Structural)]
pub enum WorkerState {
    /// It needs a candidate.
    Fetching,
    /// A candidate is being resolved.
    Classifying,
    /// It has seen the crawl complete.
    Completed,
}

/// What happened since the worker last decided.
pub enum Event {
    /// Nothing: the worker starts, goes on, or has been woken.
    Ready,
    /// The candidate was fetched and parsed.
    Resolved(String, ParsedPage),
    /// Fetching the candidate failed.
    Failed(String),
}

/// What the worker asks for next.
pub enum Action {
    /// Fetch and parse this candidate, and report `Resolved` or `Failed`.
    Resolve(String),
    /// Report `Ready` at once.
    Continue,
    /// Both frontiers are empty: report `Ready` once the global frontier
    /// has been offered to.
    Wait,
    /// Leave the loop.
    Stop,
}

/// A worker's answer to an event.
pub struct Decision {
    pub action: Action,
    /// URLs are left in, or were added to, the global frontier: one waiting
    /// worker is to be woken.
    pub wake: bool,
    /// A page was recorded: progress by one.
    pub recorded: bool,
}

/// An [`Action`] with its URL as a sequence of characters.
pub enum Request {
    Resolve(Seq<char>),
    Continue,
    Wait,
    Stop,
}

/// A [`Decision`] with its URL as a sequence of characters.
pub struct Reply {
    pub request: Request,
    pub wake: bool,
    pub recorded: bool,
}

impl View for Decision {
    type V = Reply;

    open spec fn view(&self) -> Reply {
        Reply {
            request: match self.action {
                Action::Resolve(url) => Request::Resolve(url@),
                Action::Continue => Request::Continue,
                Action::Wait => Request::Wait,
                Action::Stop => Request::Stop,
            },
            wake: self.wake,
            recorded: self.recorded,
        }
    }
}

/// How many of `count` links found go to the global frontier when it has
/// room for `free` more: as many as fit, but one link less than were found.
pub open spec fn shared(free: int, count: int) -> int {
    if count <= 0 {
        0
    } else if free <= count - 1 {
        free
    } else {
        count - 1
    }
}

/// All that a worker's step reads and changes.
pub struct Crawl {
    pub state: WorkerState,
    /// The worker's local frontier.
    pub local: Cursor,
    pub registry: Registry,
    /// The global frontier, head first.
    pub frontier: Seq<Seq<char>>,
    /// The length the global frontier is meant to stay within.
    pub capacity: int,
}

impl Crawl {
    /// The candidate that `Ready` takes: from the local frontier while that
    /// holds one, `shake` being where its cursor jumps to if it jumps; else
    /// the head of the global frontier.
    pub open spec fn candidate(self, shake: int) -> Option<Seq<char>> {
        if self.local.urls.len() > 0 {
            Some(self.local.served(shake))
        } else if self.frontier.len() > 0 {
            Some(self.frontier[0])
        } else {
            None
        }
    }

    /// The candidate taken is to be resolved: the registry does not know it.
    pub open spec fn resolves(self, shake: int) -> bool {
        self.candidate(shake) matches Some(url) && !self.registry.knows(url)
    }

    pub open spec fn after_ready(self, shake: int) -> Crawl {
        Crawl {
            state: if self.resolves(shake) {
                WorkerState::Classifying
            } else {
                WorkerState::Fetching
            },
            local: if self.local.urls.len() > 0 {
                self.local.advanced(shake)
            } else {
                self.local
            },
            frontier: if self.local.urls.len() == 0 && self.frontier.len() > 0 {
                self.frontier.drop_first()
            } else {
                self.frontier
            },
            ..self
        }
    }

    /// A candidate the registry knows is dropped; with no candidate the
    /// worker waits. A waiting worker is woken where the candidate came
    /// from the global frontier and left URLs behind.
    pub open spec fn reply_ready(self, shake: int) -> Reply {
        Reply {
            request: match self.candidate(shake) {
                Some(url) => if self.registry.knows(url) {
                    Request::Continue
                } else {
                    Request::Resolve(url)
                },
                None => Request::Wait,
            },
            wake: self.local.urls.len() == 0 && self.frontier.len() > 1,
            recorded: false,
        }
    }

    /// The number of `links` that go to the global frontier.
    pub open spec fn cut(self, links: Seq<Seq<char>>) -> int {
        shared(room(self.capacity, self.frontier.len() as int), links.len() as int)
    }

    /// The page is recorded as `insert` says. Where that completes the
    /// crawl the links are dropped; else the first of them go to the global
    /// frontier and the others to the local one.
    pub open spec fn after_resolved(
        self,
        url: Seq<char>,
        title: Option<Seq<char>>,
        links: Seq<Seq<char>>,
    ) -> Crawl {
        if self.registry.insert_signal(url) {
            Crawl {
                state: WorkerState::Completed,
                registry: self.registry.insert(url, title),
                ..self
            }
        } else {
            Crawl {
                state: WorkerState::Fetching,
                registry: self.registry.insert(url, title),
                frontier: self.frontier + links.take(self.cut(links)),
                local: Cursor { urls: self.local.urls + links.skip(self.cut(links)), ..self.local },
                ..self
            }
        }
    }

    pub open spec fn reply_resolved(self, url: Seq<char>, links: Seq<Seq<char>>) -> Reply {
        Reply {
            request: if self.registry.insert_signal(url) {
                Request::Stop
            } else {
                Request::Continue
            },
            wake: !self.registry.insert_signal(url) && self.cut(links) > 0,
            recorded: self.registry.admits(url),
        }
    }

    pub open spec fn after_failed(self, url: Seq<char>) -> Crawl {
        Crawl { state: WorkerState::Fetching, registry: self.registry.mark_failed(url), ..self }
    }
}

/// A worker that resolves a page once the registry is full stops there:
/// nothing is recorded and no link is handed on.
pub proof fn lemma_full_registry_stops_worker(
    crawl: Crawl,
    url: Seq<char>,
    title: Option<Seq<char>>,
    links: Seq<Seq<char>>,
)
    requires
        crawl.registry.saturated(),
    ensures
        crawl.after_resolved(url, title, links) == (Crawl {
            state: WorkerState::Completed,
            ..crawl
        }),
        crawl.reply_resolved(url, links) == (Reply {
            request: Request::Stop,
            wake: false,
            recorded: false,
        }),
{
}

/// Handing links on never takes the global frontier beyond its capacity,
/// and of the links found at least one stays with the worker.
pub proof fn lemma_links_are_shared_within_capacity(
    crawl: Crawl,
    url: Seq<char>,
    title: Option<Seq<char>>,
    links: Seq<Seq<char>>,
)
    requires
        !crawl.registry.insert_signal(url),
    ensures
        ({
            let after = crawl.after_resolved(url, title, links);
            &&& 0 <= crawl.cut(links) <= links.len()
            &&& after.frontier.len() == crawl.frontier.len() + crawl.cut(links)
            &&& after.local.urls.len() == crawl.local.urls.len() + links.len() - crawl.cut(links)
            &&& crawl.frontier.len() <= crawl.capacity ==> after.frontier.len() <= crawl.capacity
            &&& links.len() > 0 ==> after.local.urls.len() > crawl.local.urls.len()
        }),
{
}

/// One worker: its local frontier and its place in the cycle.
pub struct Worker {
    our_links: LocalUrls,
    state: WorkerState,
}

/// The shared structures as `worker` sees them.
pub open spec fn scene(worker: Worker, site_map: SiteMap, pub_links: LinkList) -> Crawl {
    Crawl {
        state: worker.state(),
        local: worker.local(),
        registry: site_map@,
        frontier: pub_links@,
        capacity: pub_links.capacity(),
    }
}

impl Worker {
    pub closed spec fn state(&self) -> WorkerState {
        self.state
    }

    /// The local frontier.
    pub closed spec fn local(&self) -> Cursor {
        self.our_links@
    }

    /// A worker that needs a candidate and has none of its own.
    pub fn new() -> (worker: Worker)
        ensures
            worker.state() == WorkerState::Fetching,
            worker.local().valid(),
            worker.local() == (Cursor {
                urls: Seq::empty(),
                idx: 0,
                iter_cnt: 0,
                last_domain: None,
            }),
    {
        Worker { our_links: LocalUrls::new(), state: WorkerState::Fetching }
    }

    /// The worker's place in the cycle.
    pub fn phase(&self) -> (state: WorkerState)
        ensures
            state == self.state(),
    {
        self.state
    }

    /// The number of candidates left in the local frontier.
    pub fn outstanding(&self) -> (left: usize)
        ensures
            left == self.local().urls.len(),
    {
        self.our_links.len()
    }

    /// Answers `event`. A worker that has completed stays so and changes
    /// nothing. Otherwise `Ready` takes a candidate, `Resolved` records a
    /// page and hands on its links, and `Failed` marks the candidate.
    pub fn step(&mut self, site_map: &mut SiteMap, pub_links: &mut LinkList, event: Event) -> (decision:
        Decision)
        requires
            old(site_map)@.valid(),
            old(self).local().valid(),
        ensures
            final(site_map)@.valid(),
            final(self).local().valid(),
            ({
                let before = scene(*old(self), *old(site_map), *old(pub_links));
                let after = scene(*final(self), *final(site_map), *final(pub_links));
                if before.state == WorkerState::Completed {
                    after == before && decision@ == (Reply {
                        request: Request::Stop,
                        wake: false,
                        recorded: false,
                    })
                } else {
                    match event {
                        Event::Ready => exists|shake: int|
                            0 <= shake && (shake < before.local.urls.len() || before.local.urls.len()
                                == 0) && after == #[trigger] before.after_ready(shake) && decision@
                                == before.reply_ready(shake),
                        Event::Resolved(url, page) => after == before.after_resolved(
                            url@,
                            page.data@,
                            texts(page.links@),
                        ) && decision@ == before.reply_resolved(url@, texts(page.links@)),
                        Event::Failed(url) => after == before.after_failed(url@) && decision@
                            == (Reply { request: Request::Continue, wake: false, recorded: false }),
                    }
                }
            }),
    {
        if self.state == WorkerState::Completed {
            return Decision { action: Action::Stop, wake: false, recorded: false };
        }
        match event {
            Event::Ready => self.take(site_map, pub_links),
            Event::Resolved(url, page) => self.classify(site_map, pub_links, url, page),
            Event::Failed(url) => {
                site_map.insert_bad(url);
                self.state = WorkerState::Fetching;
                Decision { action: Action::Continue, wake: false, recorded: false }
            },
        }
    }

    /// Takes a candidate, from the local frontier if it has one and else
    /// from the global one, and checks it against the registry.
    fn take(&mut self, site_map: &SiteMap, pub_links: &mut LinkList) -> (decision: Decision)
        requires
            old(self).local().valid(),
        ensures
            final(self).local().valid(),
            ({
                let before = scene(*old(self), *site_map, *old(pub_links));
                let after = scene(*final(self), *site_map, *final(pub_links));
                exists|shake: int|
                    0 <= shake && (shake < before.local.urls.len() || before.local.urls.len() == 0)
                        && after == #[trigger] before.after_ready(shake) && decision@
                        == before.reply_ready(shake)
            }),
    {
        let ghost before = scene(*self, *site_map, *pub_links);
        let mut wake = false;
        let ghost mut shake: int = 0;
        let next_url = match self.our_links.next() {
            Some(clean_url) => {
                proof {
                    shake = choose|shake: int|
                        0 <= shake < before.local.urls.len() && clean_url@
                            == #[trigger] before.local.served(shake) && self.our_links@
                            == before.local.advanced(shake);
                }
                clean_url
            },
            None => match pub_links.next() {
                Some(head) => {
                    wake = head.wake_next;
                    head.url
                },
                None => {
                    self.state = WorkerState::Fetching;
                    proof {
                        let after = scene(*self, *site_map, *pub_links);
                        assert(after == before.after_ready(0));
                    }
                    return Decision { action: Action::Wait, wake: false, recorded: false };
                },
            },
        };
        assert(before.candidate(shake) == Some(next_url@));
        let decision = if site_map.contains_key(&next_url) {
            self.state = WorkerState::Fetching;
            Decision { action: Action::Continue, wake, recorded: false }
        } else {
            self.state = WorkerState::Classifying;
            Decision { action: Action::Resolve(next_url), wake, recorded: false }
        };
        proof {
            let after = scene(*self, *site_map, *pub_links);
            assert(after == before.after_ready(shake));
            assert(decision@ == before.reply_ready(shake));
        }
        decision
    }

    /// Records a fetched page and, unless that completes the crawl, hands
    /// its links on: to the global frontier as many as it has room for, but
    /// one less than were found, and the others to the local frontier.
    fn classify(
        &mut self,
        site_map: &mut SiteMap,
        pub_links: &mut LinkList,
        url: String,
        page: ParsedPage,
    ) -> (decision: Decision)
        requires
            old(site_map)@.valid(),
            old(self).local().valid(),
        ensures
            final(site_map)@.valid(),
            final(self).local().valid(),
            ({
                let before = scene(*old(self), *old(site_map), *old(pub_links));
                let after = scene(*final(self), *final(site_map), *final(pub_links));
                &&& after == before.after_resolved(url@, page.data@, texts(page.links@))
                &&& decision@ == before.reply_resolved(url@, texts(page.links@))
            }),
    {
        let ghost before = scene(*self, *site_map, *pub_links);
        let ghost found = texts(page.links@);
        let ParsedPage { data, links } = page;
        let mut links = links;
        let count_before = site_map.len();
        proof {
            lemma_operations_keep_valid(site_map@, url@, data@);
        }
        let done = site_map.insert(url, data);
        let recorded = site_map.len() != count_before;
        if done {
            self.state = WorkerState::Completed;
            return Decision { action: Action::Stop, wake: false, recorded };
        }
        let free = pub_links.should_add() as usize;
        let count = links.len();
        let num_pub_add = if count == 0 {
            0
        } else if free <= count - 1 {
            free
        } else {
            count - 1
        };
        assert(num_pub_add == before.cut(found));
        let kept = links.split_off(num_pub_add);
        proof {
            assert(texts(links@) =~= found.take(num_pub_add as int));
            assert(texts(kept@) =~= found.skip(num_pub_add as int));
        }
        let offered = pub_links.add(links);
        self.our_links.extend(kept);
        self.state = WorkerState::Fetching;
        Decision { action: Action::Continue, wake: offered.wake, recorded }
    }
}

} // verus!
