//! The global frontier: a first-in, first-out queue of candidate URLs with a
//! soft bound on its length.

use std::collections::VecDeque;
use vstd::prelude::*;
use crate::crawler_datatypes::texts;

verus! {

/// The head of the frontier, and what its removal asks of the caller.
pub struct Taken {
    /// The URL that stood first.
    pub url: String,
    /// URLs remain, so one more waiting consumer is to be woken.
    pub wake_next: bool,
}

/// What an offer to the frontier asks of the caller.
#[derive(Clone, Copy, Debug, PartialEq, Eq, Structural)]
pub struct Offered {
    /// URLs were appended, so one waiting consumer is to be woken.
    pub wake: bool,
    /// The queue has grown beyond its capacity: to be reported, not undone.
    pub over_capacity: bool,
}

/// The global frontier.
pub struct LinkList {
    links: VecDeque<String>,
    capacity: u8,
}

impl View for LinkList {
    type V = Seq<Seq<char>>;

    /// The queued URLs, head first.
    closed spec fn view(&self) -> Seq<Seq<char>> {
        texts(self.links@)
    }
}

/// How many more URLs a queue of `len` may take before it exceeds
/// `capacity`; none once it is full or beyond.
pub open spec fn room(capacity: int, len: int) -> int {
    if len >= capacity {
        0
    } else {
        capacity - len
    }
}

impl LinkList {
    /// The length the queue is meant to stay within.
    pub closed spec fn capacity(&self) -> int {
        self.capacity as int
    }

    /// A frontier that holds `starting_points` in their order.
    pub fn new(starting_points: Vec<String>, capacity: u8) -> (list: LinkList)
        ensures
            list@ == texts(starting_points@),
            list.capacity() == capacity,
    {
        let mut list = LinkList { links: VecDeque::new(), capacity };
        list.append(starting_points);
        list
    }

    fn append(&mut self, new_links: Vec<String>)
        ensures
            final(self)@ == old(self)@ + texts(new_links@),
            final(self).capacity() == old(self).capacity(),
    {
        let ghost start = self@;
        for url in it: new_links
            invariant
                it.seq() == new_links@,
                self.capacity() == old(self).capacity(),
                self@ == start + texts(new_links@.take(it.index() as int)),
        {
            let ghost queued = self.links@;
            self.links.push_back(url);
            proof {
                let seen = new_links@.take(it.index() as int);
                assert(new_links@.take(it.index() + 1) =~= seen.push(url));
                assert(texts(seen.push(url)) =~= texts(seen).push(url@));
                assert(texts(queued.push(url)) =~= texts(queued).push(url@));
                assert(self@ =~= start + texts(seen.push(url)));
            }
        }
        assert(new_links@.take(new_links@.len() as int) == new_links@);
    }

    /// Removes the head of the queue. `None` means that the queue is empty
    /// and the caller has to wait for an offer.
    pub fn next(&mut self) -> (taken: Option<Taken>)
        ensures
            final(self).capacity() == old(self).capacity(),
            match taken {
                Some(head) => {
                    &&& old(self)@.len() > 0
                    &&& head.url@ == old(self)@[0]
                    &&& final(self)@ == old(self)@.drop_first()
                    &&& head.wake_next == (final(self)@.len() > 0)
                },
                None => old(self)@.len() == 0 && final(self)@ == old(self)@,
            },
    {
        match self.links.pop_front() {
            Some(url) => {
                let wake_next = self.links.len() > 0;
                Some(Taken { url, wake_next })
            },
            None => None,
        }
    }

    /// Appends `new_links` in their order, also where that exceeds the
    /// capacity.
    pub fn add(&mut self, new_links: Vec<String>) -> (offered: Offered)
        ensures
            final(self)@ == old(self)@ + texts(new_links@),
            final(self).capacity() == old(self).capacity(),
            offered.wake == (new_links.len() > 0),
            offered.over_capacity == (new_links.len() > 0 && old(self)@.len() + new_links.len()
                > old(self).capacity()),
    {
        let wake = new_links.len() > 0;
        let over_capacity = wake && (self.links.len() > self.capacity as usize || new_links.len()
            > self.capacity as usize - self.links.len());
        self.append(new_links);
        Offered { wake, over_capacity }
    }

    /// The room left in the queue.
    pub fn should_add(&self) -> (free: u8)
        ensures
            free == room(self.capacity(), self@.len() as int),
    {
        let len = self.links.len();
        if len >= self.capacity as usize {
            0
        } else {
            self.capacity - len as u8
        }
    }
}

} // verus!
