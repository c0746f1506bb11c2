//! The local frontier: one worker's own list of candidate URLs, read through
//! a cursor that steps away from the host it served last and jumps to a
//! random place every few calls.

use rand::rngs::ThreadRng;
use vstd::prelude::*;
use crate::bindings::{random_index, thread_generator};
use crate::crawler_datatypes::texts;

verus! {

/// How far the cursor moves on when it meets the host served last.
pub const SKIP_AMOUNT: usize = 5;

/// The number of calls after which the cursor jumps to a random place.
pub const SHAKE_THRESH: u8 = 10;

/// The leading part of `url` up to and including its first `/`, or all of
/// `url` where it has none.
pub open spec fn domain_of(url: Seq<char>) -> Seq<char> {
    match url.index_of_first('/') {
        Some(slash) => url.take(slash + 1),
        None => url,
    }
}

/// Mathematical state of the local frontier.
pub struct Cursor {
    /// The candidate URLs in the order they were added.
    pub urls: Seq<Seq<char>>,
    /// The place the next URL is taken from.
    pub idx: int,
    /// Calls of `next` since the last random jump.
    pub iter_cnt: int,
    /// The domain of the URL returned last.
    pub last_domain: Option<Seq<char>>,
}

impl Cursor {
    /// The cursor points into the list, or to its start where the list is
    /// empty, and the call counter stays below the threshold.
    pub open spec fn valid(self) -> bool {
        &&& 0 <= self.iter_cnt < SHAKE_THRESH
        &&& 0 <= self.idx
        &&& self.idx < self.urls.len() || self.idx == 0
    }

    /// The call about to be made is one that jumps.
    pub open spec fn shakes(self) -> bool {
        self.iter_cnt + 1 == SHAKE_THRESH
    }

    /// The cursor after the jump, if this call makes one to `shake`.
    pub open spec fn shaken(self, shake: int) -> int {
        if self.shakes() {
            shake
        } else {
            self.idx
        }
    }

    /// The place the URL is taken from: `SKIP_AMOUNT` beyond the cursor,
    /// around the end of the list, where the cursor stands on a URL of the
    /// domain served last.
    pub open spec fn pick(self, shake: int) -> int {
        let at = self.shaken(shake);
        if self.last_domain == Some(domain_of(self.urls[at])) {
            (at + SKIP_AMOUNT) % (self.urls.len() as int)
        } else {
            at
        }
    }

    /// The URL that `next` returns from a list that is not empty.
    pub open spec fn served(self, shake: int) -> Seq<char> {
        self.urls[self.pick(shake)]
    }

    /// The state after `next` on a list that is not empty.
    pub open spec fn advanced(self, shake: int) -> Cursor {
        let at = self.pick(shake);
        let rest = self.urls.remove(at);
        Cursor {
            urls: rest,
            idx: if rest.len() == 0 {
                0
            } else {
                at % (rest.len() as int)
            },
            iter_cnt: if self.shakes() {
                0
            } else {
                self.iter_cnt + 1
            },
            last_domain: Some(domain_of(self.urls[at])),
        }
    }
}

/// Taking a URL leaves a valid state behind: the URL came from the list,
/// the list is shorter by it, and the cursor points into what is left.
pub proof fn lemma_advanced_is_valid(cursor: Cursor, shake: int)
    requires
        cursor.valid(),
        0 <= shake < cursor.urls.len(),
    ensures
        0 <= cursor.pick(shake) < cursor.urls.len(),
        cursor.advanced(shake).valid(),
        cursor.advanced(shake).urls.len() == cursor.urls.len() - 1,
        cursor.advanced(shake).urls == cursor.urls.remove(cursor.pick(shake)),
        cursor.advanced(shake).last_domain == Some(domain_of(cursor.served(shake))),
{
}

/// The local frontier.
pub struct LocalUrls {
    urls: Vec<String>,
    last_domain: Option<String>,
    iter_cnt: u8,
    idx: usize,
    rand_rng: ThreadRng,
}

impl View for LocalUrls {
    type V = Cursor;

    closed spec fn view(&self) -> Cursor {
        Cursor {
            urls: texts(self.urls@),
            idx: self.idx as int,
            iter_cnt: self.iter_cnt as int,
            last_domain: match self.last_domain {
                Some(domain) => Some(domain@),
                None => None,
            },
        }
    }
}

impl LocalUrls {
    /// An empty frontier with its cursor at the start.
    pub fn new() -> (local: LocalUrls)
        ensures
            local@.valid(),
            local@ == (Cursor { urls: Seq::empty(), idx: 0, iter_cnt: 0, last_domain: None }),
    {
        let local = LocalUrls {
            urls: Vec::new(),
            last_domain: None,
            iter_cnt: 0,
            idx: 0,
            rand_rng: thread_generator(),
        };
        assert(local@.urls =~= Seq::empty());
        local
    }

    /// Removes and returns the next candidate, or `None` where there is
    /// none. Every `SHAKE_THRESH`-th call on a list that is not empty first
    /// moves the cursor to a place drawn at random.
    pub fn next(&mut self) -> (url: Option<String>)
        requires
            old(self)@.valid(),
        ensures
            final(self)@.valid(),
            match url {
                Some(url) => old(self)@.urls.len() > 0 && exists|shake: int|
                    0 <= shake < old(self)@.urls.len() && url@ == #[trigger] old(self)@.served(shake)
                        && final(self)@ == old(self)@.advanced(shake),
                None => old(self)@.urls.len() == 0 && final(self)@ == old(self)@,
            },
    {
        if self.urls.is_empty() {
            return None;
        }
        let shake = if self.iter_cnt + 1 == SHAKE_THRESH {
            random_index(&mut self.rand_rng, self.urls.len())
        } else {
            self.idx
        };
        let url = self.next_from(shake);
        assert(url is Some);
        assert(url->0@ == old(self)@.served(shake as int));
        url
    }

    /// `next` with the random place handed in: `shake` is where the cursor
    /// jumps to if this call is one that jumps.
    pub fn next_from(&mut self, shake: usize) -> (url: Option<String>)
        requires
            old(self)@.valid(),
            old(self)@.urls.len() > 0 ==> shake < old(self)@.urls.len(),
        ensures
            final(self)@.valid(),
            match url {
                Some(url) => {
                    &&& old(self)@.urls.len() > 0
                    &&& url@ == old(self)@.served(shake as int)
                    &&& final(self)@ == old(self)@.advanced(shake as int)
                },
                None => old(self)@.urls.len() == 0 && final(self)@ == old(self)@,
            },
    {
        if self.urls.is_empty() {
            return None;
        }
        let ghost before = self@;
        self.iter_cnt += 1;
        if self.iter_cnt == SHAKE_THRESH {
            self.idx = shake;
            self.iter_cnt = 0;
        }
        let same_host = match &self.last_domain {
            Some(last_domain) => LocalUrls::domain(&self.urls[self.idx]) == *last_domain,
            None => false,
        };
        if same_host {
            self.incr(SKIP_AMOUNT);
        }
        assert(self.idx == before.pick(shake as int));
        let next_url = self.urls.remove(self.idx);
        self.incr(0);
        self.last_domain = Some(LocalUrls::domain(&next_url));
        proof {
            assert(texts(self.urls@) =~= before.urls.remove(before.pick(shake as int)));
        }
        Some(next_url)
    }

    /// Moves the cursor on by `num` places, around the end of the list.
    fn incr(&mut self, num: usize)
        requires
            old(self).idx <= old(self).urls.len(),
            old(self).urls.len() == 0 ==> num == 0,
        ensures
            final(self).urls == old(self).urls,
            final(self).last_domain == old(self).last_domain,
            final(self).iter_cnt == old(self).iter_cnt,
            old(self).urls.len() > 0 ==> final(self).idx == (old(self).idx + num) % (old(
                self,
            ).urls.len() as int),
            old(self).urls.len() == 0 ==> final(self).idx == 0,
    {
        let len = self.urls.len();
        if len > 0 {
            let step = num % len;
            let base = if self.idx == len {
                0
            } else {
                self.idx
            };
            proof {
                lemma_wrapped_step(self.idx as int, base as int, num as int, len as int);
            }
            if base >= len - step {
                self.idx = base - (len - step);
            } else {
                self.idx = base + step;
            }
        }
    }

    /// The domain of `url`.
    pub fn domain(url: &String) -> (domain: String)
        ensures
            domain@ == domain_of(url@),
    {
        let text = url.as_str();
        let len = text.unicode_len();
        let mut end: usize = 0;
        for ch in it: text.chars()
            invariant
                it.seq() == url@,
                text@ == url@,
                end == it.index(),
                len == url@.len(),
                forall|i: int| 0 <= i < it.index() ==> url@[i] != '/',
        {
            assert(end < len && ch == url@[end as int]);
            end += 1;
            if ch == '/' {
                proof {
                    url@.index_of_first_ensures('/');
                    assert(url@.contains('/'));
                    assert(url@.index_of_first('/') == Some(end - 1));
                    assert(url@.subrange(0, end as int) == url@.take(end as int));
                }
                let head = text.substring_char(0, end);
                return head.to_owned();
            }
        }
        proof {
            url@.index_of_first_ensures('/');
        }
        url.clone()
    }

    /// Appends `urls` to the end of the list.
    pub fn extend(&mut self, urls: Vec<String>)
        ensures
            final(self)@ == (Cursor { urls: old(self)@.urls + texts(urls@), ..old(self)@ }),
    {
        let mut urls = urls;
        let ghost added = urls@;
        self.urls.append(&mut urls);
        assert(texts(self.urls@) =~= old(self)@.urls + texts(added));
    }

    /// The number of candidates in the list.
    pub fn len(&self) -> (len: usize)
        ensures
            len == self@.urls.len(),
    {
        self.urls.len()
    }
}

/// Stepping by `num` from `idx` around a list of `len` places lands where
/// stepping by `num % len` from `base` does, `base` being `idx` brought into
/// the list.
proof fn lemma_wrapped_step(idx: int, base: int, num: int, len: int)
    requires
        0 <= idx <= len,
        0 < len,
        base == if idx == len {
            0
        } else {
            idx
        },
        0 <= num,
    ensures
        base >= len - num % len ==> (idx + num) % len == base - (len - num % len),
        base < len - num % len ==> (idx + num) % len == base + num % len,
{
    let step = num % len;
    let landed = if base >= len - step {
        base - (len - step)
    } else {
        base + step
    };
    let whole = num / len;
    let turns = if idx == len || base >= len - step {
        whole + 1
    } else {
        whole
    };
    assert(num == whole * len + step) by {
        vstd::arithmetic::div_mod::lemma_fundamental_div_mod(num, len);
        assert(len * whole == whole * len) by (nonlinear_arith);
    }
    assert((whole + 1) * len == whole * len + len) by (nonlinear_arith);
    vstd::arithmetic::div_mod::lemma_fundamental_div_mod_converse(idx + num, len, turns, landed);
}

} // verus!
