//! Prefix trie over candidate URLs.

use std::collections::HashMap;
use vstd::prelude::*;
use crate::bindings::{char_is_alphanumeric, is_alphanumeric};

verus! {

/// Depth of the trie: the number of leading characters a URL is branched on.
pub const LEVELS: u8 = 3;

/// The characters a candidate URL may hold besides letters and digits.
pub open spec fn is_special(ch: char) -> bool {
    ch == '.' || ch == '-' || ch == '_' || ch == '/' || ch == '%'
}

/// The alphabet of candidate URLs.
pub open spec fn valid_char(ch: char) -> bool {
    is_alphanumeric(ch) || is_special(ch)
}

/// Tells whether `ch` may occur in a candidate URL.
pub fn valid_url_char(ch: char) -> (ok: bool)
    ensures
        ok == valid_char(ch),
{
    char_is_alphanumeric(ch) || ch == '.' || ch == '-' || ch == '_' || ch == '/' || ch == '%'
}

/// One internal node of the trie: the depth it stands at and its children,
/// keyed by the code point of the character they continue with.
pub struct UrlBrancher {
    level: u8,
    branches: HashMap<u32, UrlTree>,
}

/// A node of the trie.
pub enum UrlTree {
    /// Internal node, at a depth below [`LEVELS`].
    Fork(UrlBrancher),
    /// Bucket of the URLs that share one prefix of [`LEVELS`] characters.
    Leaf(Vec<String>),
}

impl UrlBrancher {
    pub closed spec fn level(&self) -> int {
        self.level as int
    }

    pub closed spec fn branches(&self) -> Map<u32, UrlTree> {
        self.branches@
    }

    /// An internal node at depth `level` without children.
    pub fn new(level: u8) -> (brancher: UrlBrancher)
        ensures
            brancher.level() == level,
            brancher.branches() == Map::<u32, UrlTree>::empty(),
    {
        UrlBrancher { level, branches: HashMap::new() }
    }
}

/// Why a URL cannot be branched on.
#[derive(Clone, Copy, Debug, PartialEq, Eq, Structural)]
pub enum UrlError {
    /// The URL ends before the trie's depth is reached.
    TooShort,
    /// One of the characters branched on is outside the URL alphabet.
    InvalidChar,
}

/// The first obstacle met when branching on the characters of `url` at the
/// positions `from..LEVELS`, or `None` if there is none.
pub open spec fn fault(url: Seq<char>, from: int) -> Option<UrlError>
    decreases LEVELS - from,
{
    if from < 0 || from >= LEVELS {
        None
    } else if from >= url.len() {
        Some(UrlError::TooShort)
    } else if !valid_char(url[from]) {
        Some(UrlError::InvalidChar)
    } else {
        fault(url, from + 1)
    }
}

/// The key of the branch that `url` takes at depth `level`: the code point of
/// its character there.
pub open spec fn code_at(url: Seq<char>, level: int) -> u32
    recommends
        0 <= level < url.len(),
{
    url[level] as u32
}

/// `from` is the depth of a fork, and `probe` ends above the leaves and
/// agrees with `url` from position `from` on.
pub open spec fn follows(probe: Seq<char>, url: Seq<char>, from: int) -> bool {
    &&& from < LEVELS
    &&& probe.len() < LEVELS
    &&& probe.len() <= url.len()
    &&& forall|i: int| from <= i < probe.len() ==> probe[i] == url[i]
}

impl View for UrlTree {
    type V = Set<Seq<char>>;

    /// The URLs that the trie holds.
    open spec fn view(&self) -> Set<Seq<char>> {
        Set::new(|url: Seq<char>| self.holds(url))
    }
}

impl UrlTree {
    /// The depth this node stands at.
    pub open spec fn level(&self) -> int {
        match self {
            UrlTree::Fork(b) => b.level(),
            UrlTree::Leaf(_) => LEVELS as int,
        }
    }

    /// Forks stand above [`LEVELS`] and each child one level below its
    /// parent, so that leaves occur at [`LEVELS`] exactly; no bucket lists a
    /// URL twice.
    pub open spec fn wf(&self) -> bool
        decreases self,
    {
        match self {
            UrlTree::Fork(b) => {
                &&& b.level() < LEVELS
                &&& b.branches().dom().finite()
                &&& forall|k: u32| #[trigger]
                    b.branches().contains_key(k) ==> b.branches()[k].wf() && b.branches()[k].level()
                        == b.level() + 1
            },
            UrlTree::Leaf(bucket) => forall|i: int, j: int|
                0 <= i < j < bucket.len() ==> bucket[i]@ != bucket[j]@,
        }
    }

    /// Membership by descent: each fork is left through the branch of the
    /// character at its depth, and the bucket reached lists `url`.
    pub open spec fn holds(&self, url: Seq<char>) -> bool
        decreases self,
    {
        match self {
            UrlTree::Fork(b) => {
                if b.level() < url.len() && b.branches().dom().finite() && b.branches().contains_key(
                    code_at(url, b.level()),
                ) {
                    b.branches()[code_at(url, b.level())].holds(url)
                } else {
                    false
                }
            },
            UrlTree::Leaf(bucket) => in_bucket(bucket@, url),
        }
    }

    /// The descent along `url` arrives at a fork that lies at or beyond the
    /// end of `url`: there is no character left to branch on.
    pub open spec fn runs_short(&self, url: Seq<char>) -> bool
        decreases self,
    {
        match self {
            UrlTree::Fork(b) => {
                if b.level() >= url.len() {
                    true
                } else if b.branches().dom().finite() && b.branches().contains_key(
                    code_at(url, b.level()),
                ) {
                    b.branches()[code_at(url, b.level())].runs_short(url)
                } else {
                    false
                }
            },
            UrlTree::Leaf(_) => false,
        }
    }

    /// The empty trie.
    pub fn root() -> (tree: UrlTree)
        ensures
            tree.wf(),
            tree.level() == 0,
            tree@ == Set::<Seq<char>>::empty(),
            forall|url: Seq<char>| tree.runs_short(url) <==> url.len() == 0,
    {
        let root_brancher = UrlBrancher::new(0);
        let tree = UrlTree::Fork(root_brancher);
        assert(tree@ =~= Set::<Seq<char>>::empty());
        tree
    }

    /// Looks `url` up. The descent stops with `Ok(false)` at the first
    /// missing branch and with `TooShort` where `url` ends at a fork.
    pub fn check_url(&self, url: &String) -> (found: Result<bool, UrlError>)
        requires
            self.wf(),
        ensures
            found == if self.runs_short(url@) {
                Err::<bool, UrlError>(UrlError::TooShort)
            } else {
                Ok::<bool, UrlError>(self@.contains(url@))
            },
        decreases LEVELS - self.level(),
    {
        match self {
            UrlTree::Fork(brancher) => {
                let len = url.as_str().unicode_len();
                if brancher.level as usize >= len {
                    return Err(UrlError::TooShort);
                }
                let curr_char = url.as_str().get_char(brancher.level as usize);
                let key = curr_char as u32;
                match brancher.branches.get(&key) {
                    Some(tree) => tree.check_url(url),
                    None => Ok(false),
                }
            },
            UrlTree::Leaf(bucket) => Ok(bucket_contains(bucket, url)),
        }
    }

    /// Adds `url` to the trie, creating the missing forks and the bucket on
    /// its path. The characters branched on are examined first: where one of
    /// them is missing or outside the alphabet the trie is left as it was.
    pub fn add_url(&mut self, url: String) -> (added: Result<(), UrlError>)
        requires
            old(self).wf(),
        ensures
            final(self).wf(),
            final(self).level() == old(self).level(),
            match added {
                Ok(()) => {
                    &&& fault(url@, old(self).level()) is None
                    &&& final(self)@ == old(self)@.insert(url@)
                    &&& forall|probe: Seq<char>|
                        final(self).runs_short(probe) <==> old(self).runs_short(probe) || follows(
                            probe,
                            url@,
                            old(self).level(),
                        )
                },
                Err(e) => fault(url@, old(self).level()) == Some(e) && *final(self) == *old(self),
            },
    {
        let from = match self {
            UrlTree::Fork(brancher) => brancher.level,
            UrlTree::Leaf(_) => LEVELS,
        };
        match first_fault(&url, from) {
            Some(e) => Err(e),
            None => {
                self.add_checked(url);
                Ok(())
            },
        }
    }

    fn add_checked(&mut self, url: String)
        requires
            old(self).wf(),
            fault(url@, old(self).level()) is None,
        ensures
            final(self).wf(),
            final(self).level() == old(self).level(),
            final(self)@ == old(self)@.insert(url@),
            forall|probe: Seq<char>|
                final(self).runs_short(probe) <==> old(self).runs_short(probe) || follows(
                    probe,
                    url@,
                    old(self).level(),
                ),
        decreases LEVELS - old(self).level(),
    {
        let ghost prev = *self;
        match self {
            UrlTree::Fork(brancher) => {
                let level = brancher.level;
                let curr_char = url.as_str().get_char(level as usize);
                let key = curr_char as u32;
                let ghost before = brancher.branches@;
                let mut node = match brancher.branches.remove(&key) {
                    Some(tree) => tree,
                    None => {
                        if level < LEVELS - 1 {
                            UrlTree::Fork(UrlBrancher::new(level + 1))
                        } else {
                            UrlTree::Leaf(Vec::new())
                        }
                    },
                };
                let ghost start = node;
                proof {
                    assert(fault(url@, level + 1) is None);
                    assert(start.wf() && start.level() == level + 1);
                    assert(before.contains_key(key) ==> start == before[key]);
                    assert(!before.contains_key(key) ==> forall|probe: Seq<char>|
                        !start.holds(probe) && (start.runs_short(probe) <==> level + 1 < LEVELS
                            && probe.len() <= level + 1));
                }
                node.add_checked(url);
                brancher.branches.insert(key, node);
                proof {
                    let now = UrlTree::Fork(*brancher);
                    let after = brancher.branches@;
                    assert(after == before.insert(key, node));
                    assert(now.wf());
                    assert forall|probe: Seq<char>| now.holds(probe) <==> prev.holds(probe) || probe
                        == url@ by {
                        if level < probe.len() && code_at(probe, level as int) == key {
                            assert(now.holds(probe) == node.holds(probe));
                            assert(node@.contains(probe) == (start@.contains(probe) || probe
                                == url@));
                        } else {
                            assert(probe != url@);
                            assert(now.holds(probe) == prev.holds(probe));
                        }
                    }
                    assert(now@ =~= prev@.insert(url@));
                    assert forall|probe: Seq<char>|
                        now.runs_short(probe) <==> prev.runs_short(probe) || follows(
                            probe,
                            url@,
                            level as int,
                        ) by {
                        if level >= probe.len() {
                        } else if code_at(probe, level as int) == key {
                            assert(now.runs_short(probe) == node.runs_short(probe));
                            assert(follows(probe, url@, level as int) <==> follows(
                                probe,
                                url@,
                                level + 1,
                            ) || (level + 1 < LEVELS && probe.len() <= level + 1)) by {
                                lemma_code_points_differ(probe[level as int], url@[level as int]);
                            }
                        } else {
                            assert(now.runs_short(probe) == prev.runs_short(probe));
                            assert(probe[level as int] != url@[level as int]);
                        }
                    }
                }
            },
            UrlTree::Leaf(bucket) => {
                let ghost listed = bucket@;
                if !bucket_contains(bucket, &url) {
                    bucket.push(url);
                }
                proof {
                    let now = UrlTree::Leaf(*bucket);
                    assert forall|probe: Seq<char>| now.holds(probe) <==> prev.holds(probe) || probe
                        == url@ by {
                        if prev.holds(probe) {
                            let i = choose|i: int| 0 <= i < listed.len() && listed[i]@ == probe;
                            assert(bucket@[i]@ == probe);
                        }
                        if probe == url@ {
                            if in_bucket(listed, url@) {
                            } else {
                                assert(bucket@[listed.len() as int]@ == probe);
                            }
                        }
                    }
                    assert(now@ =~= prev@.insert(url@));
                }
            },
        }
    }
}

/// A URL that reaches the trie's depth is never too short for a lookup, at
/// whichever node the lookup starts.
pub proof fn lemma_full_length_is_answered(tree: UrlTree, url: Seq<char>)
    requires
        tree.wf(),
        url.len() >= LEVELS,
    ensures
        !tree.runs_short(url),
    decreases tree,
{
    match tree {
        UrlTree::Fork(b) => {
            let key = code_at(url, b.level());
            if b.branches().contains_key(key) {
                lemma_full_length_is_answered(b.branches()[key], url);
            }
        },
        UrlTree::Leaf(_) => {},
    }
}

/// Looking up a string that stops above the leaves on the path of a URL the
/// trie holds runs short: such a lookup is refused, not answered with
/// `false`.
pub proof fn lemma_prefix_runs_short(tree: UrlTree, url: Seq<char>, probe: Seq<char>)
    requires
        tree.wf(),
        tree@.contains(url),
        follows(probe, url, tree.level()),
    ensures
        tree.runs_short(probe),
    decreases tree,
{
    match tree {
        UrlTree::Fork(b) => {
            if b.level() < probe.len() {
                let key = code_at(url, b.level());
                assert(code_at(probe, b.level()) == key);
                lemma_prefix_runs_short(b.branches()[key], url, probe);
            }
        },
        UrlTree::Leaf(_) => {},
    }
}

/// Distinct characters have distinct code points.
proof fn lemma_code_points_differ(a: char, b: char)
    ensures
        a as u32 == b as u32 ==> a == b,
{
    assert(a as u32 as char == a);
    assert(b as u32 as char == b);
}

/// Examines the characters of `url` at the positions `from..LEVELS`.
fn first_fault(url: &String, from: u8) -> (found: Option<UrlError>)
    ensures
        found == fault(url@, from as int),
{
    let len = url.as_str().unicode_len();
    let mut at: u8 = from;
    while at < LEVELS
        invariant
            from <= at,
            len == url@.len(),
            fault(url@, from as int) == fault(url@, at as int),
        decreases LEVELS - at,
    {
        if at as usize >= len {
            return Some(UrlError::TooShort);
        }
        if !valid_url_char(url.as_str().get_char(at as usize)) {
            return Some(UrlError::InvalidChar);
        }
        at += 1;
    }
    None
}

/// Whether one of the strings of `bucket` reads `url`.
pub open spec fn in_bucket(bucket: Seq<String>, url: Seq<char>) -> bool {
    exists|i: int| 0 <= i < bucket.len() && #[trigger] bucket[i]@ == url
}

fn bucket_contains(bucket: &Vec<String>, url: &String) -> (found: bool)
    ensures
        found == in_bucket(bucket@, url@),
{
    let mut i: usize = 0;
    while i < bucket.len()
        invariant
            i <= bucket.len(),
            forall|j: int| 0 <= j < i ==> bucket[j]@ != url@,
        decreases bucket.len() - i,
    {
        if bucket[i] == *url {
            return true;
        }
        i += 1;
    }
    false
}

} // verus!
