//! From a fetched page to its title and its candidate URLs.

use vstd::prelude::*;
use crate::bindings::{
    find,
    find_iter,
    is_match,
    regex_find,
    regex_find_iter,
    regex_is_match,
    regex_replace,
    replace,
    trim,
    trimmed,
};
use crate::crawler_datatypes::{texts, PageData, ParsedPage};
use crate::url_tree::{valid_char, valid_url_char};

verus! {

/// A title element with its content.
pub const TITLE_TAG: &'static str = "<title\\s*.*?>.+?</title>";

/// What stands between the end of one tag and the start of the next.
pub const BETWEEN_TAGS: &'static str = ">.+?<";

/// An anchor's opening tag with a quoted `href`.
pub const LINK_TAG: &'static str = "<a.+?href=(\"|').+?(\"|').*?>";

/// A quoted `href` attribute.
pub const HREF: &'static str = "href=(\"|').+?(\"|')";

/// The protocol a link has to name.
pub const PROTOCOL: &'static str = "https?://";

/// A query, from its question mark on.
pub const QUERY: &'static str = "\\?.*";

/// The protocol that a candidate URL is fetched with.
pub const SCHEME: &'static str = "https://";

/// Tells whether every character of `url` belongs to the URL alphabet.
pub open spec fn all_valid(url: Seq<char>) -> bool {
    forall|i: int| 0 <= i < url.len() ==> valid_char(#[trigger] url[i])
}

/// `text` without its first `front` and its last `back` characters, where
/// it has that many.
pub open spec fn inner(text: Seq<char>, front: int, back: int) -> Option<Seq<char>> {
    if 0 <= front && 0 <= back && front + back <= text.len() {
        Some(text.subrange(front, text.len() - back))
    } else {
        None
    }
}

/// The title that `find_title` reads from the text of a title element.
pub open spec fn title_of(tag: Seq<char>) -> Option<Seq<char>> {
    match regex_find(BETWEEN_TAGS@, tag) {
        Some(innards) => inner(innards, 1, 1),
        None => None,
    }
}

/// The title of `page`.
pub open spec fn title_in(page: Seq<char>) -> Option<Seq<char>> {
    match regex_find(TITLE_TAG@, page) {
        Some(tag) => title_of(tag),
        None => None,
    }
}

/// `url` if it is written in the URL alphabet.
pub open spec fn checked(url: Seq<char>) -> Option<Seq<char>> {
    if all_valid(url) {
        Some(url)
    } else {
        None
    }
}

/// `url` without its protocol, its query and the white space around it.
pub open spec fn stripped(url: Seq<char>) -> Seq<char> {
    trimmed(
        regex_replace(QUERY@, regex_replace(PROTOCOL@, url, Seq::empty()), Seq::empty()),
    )
}

/// The candidate URL that `url` stands for: it has to name the protocol, and
/// what is left of it has to be written in the URL alphabet.
pub open spec fn cleansed(url: Seq<char>) -> Option<Seq<char>> {
    if regex_is_match(PROTOCOL@, url) {
        checked(stripped(url))
    } else {
        None
    }
}

/// The candidate URL that the opening tag of an anchor points to.
pub open spec fn link_of(tag: Seq<char>) -> Option<Seq<char>> {
    match regex_find(HREF@, tag) {
        Some(attribute) => match inner(attribute, 6, 1) {
            Some(raw) => cleansed(raw),
            None => None,
        },
        None => None,
    }
}

/// The candidate URLs that `tags` point to, in the order of the tags.
pub open spec fn links_of(tags: Seq<Seq<char>>) -> Seq<Seq<char>>
    decreases tags.len(),
{
    if tags.len() == 0 {
        Seq::empty()
    } else {
        match link_of(tags.last()) {
            Some(link) => links_of(tags.drop_last()).push(link),
            None => links_of(tags.drop_last()),
        }
    }
}

/// The candidate URLs that `page` links to.
pub open spec fn links_in(page: Seq<char>) -> Seq<Seq<char>> {
    links_of(regex_find_iter(LINK_TAG@, page))
}

/// The text of an `Option<String>`.
pub open spec fn text_of(value: Option<String>) -> Option<Seq<char>> {
    match value {
        Some(text) => Some(text@),
        None => None,
    }
}

/// Reads a page: its title and the links on it.
pub fn parse_page(page: String) -> (parsed: ParsedPage)
    ensures
        parsed.data@ == title_in(page@),
        texts(parsed.links@) == links_in(page@),
{
    ParsedPage { data: PageData { title: find_title(&page) }, links: find_links(&page) }
}

/// Finds the title of a page: what the first title element holds between
/// its opening tag and the next tag.
pub fn find_title(page: &String) -> (title: Option<String>)
    ensures
        text_of(title) == title_in(page@),
{
    match find(TITLE_TAG, page.as_str()) {
        Some(tag) => title_from(&tag),
        None => None,
    }
}

/// Reads the title from the text of a title element.
pub fn title_from(tag: &String) -> (title: Option<String>)
    ensures
        text_of(title) == title_of(tag@),
{
    match find(BETWEEN_TAGS, tag.as_str()) {
        Some(innards) => strip(&innards, 1, 1),
        None => None,
    }
}

/// Cuts `front` characters off the start of `text` and `back` off its end.
/// `None` where `text` is shorter than that.
pub fn strip(text: &String, front: usize, back: usize) -> (cut: Option<String>)
    ensures
        text_of(cut) == inner(text@, front as int, back as int),
{
    let len = text.as_str().unicode_len();
    if front > len || back > len - front {
        None
    } else {
        Some(text.as_str().substring_char(front, len - back).to_owned())
    }
}

/// Finds the links of a page: for each anchor with a quoted `href`, in the
/// order of the page, the candidate URL that the attribute stands for, if
/// it stands for one.
pub fn find_links(page: &String) -> (links: Vec<String>)
    ensures
        texts(links@) == links_in(page@),
{
    let tags = find_iter(LINK_TAG, page.as_str());
    links_from(&tags)
}

/// The candidate URLs that the opening tags `tags` point to.
pub fn links_from(tags: &Vec<String>) -> (links: Vec<String>)
    ensures
        texts(links@) == links_of(texts(tags@)),
{
    let mut links: Vec<String> = Vec::new();
    let mut at: usize = 0;
    assert(texts(tags@).take(0) =~= Seq::empty());
    while at < tags.len()
        invariant
            at <= tags.len(),
            texts(links@) == links_of(texts(tags@).take(at as int)),
        decreases tags.len() - at,
    {
        let ghost before = texts(links@);
        proof {
            let seen = texts(tags@).take(at + 1);
            assert(seen.last() == tags[at as int]@);
            assert(seen.drop_last() =~= texts(tags@).take(at as int));
        }
        match link_from(&tags[at]) {
            Some(link) => {
                links.push(link);
                assert(texts(links@) =~= before.push(link@));
            },
            None => {},
        }
        at += 1;
    }
    assert(texts(tags@).take(tags.len() as int) =~= texts(tags@));
    links
}

/// The candidate URL that the opening tag of an anchor points to.
pub fn link_from(tag: &String) -> (link: Option<String>)
    ensures
        text_of(link) == link_of(tag@),
{
    match find(HREF, tag.as_str()) {
        Some(attribute) => match strip(&attribute, 6, 1) {
            Some(raw) => cleanse_url(raw.as_str()),
            None => None,
        },
        None => None,
    }
}

/// Turns a link into a candidate URL: removes the protocol, the query and
/// the white space around. `None` where the link names no protocol or what
/// is left holds a character outside the URL alphabet.
pub fn cleanse_url(url: &str) -> (clean: Option<String>)
    ensures
        text_of(clean) == cleansed(url@),
{
    if is_match(PROTOCOL, url) {
        proof {
            reveal_strlit("");
            assert(""@ =~= Seq::<char>::empty());
        }
        let cut_proto = replace(PROTOCOL, url, "");
        let cut_query = replace(QUERY, cut_proto.as_str(), "");
        let trimmed = trim(cut_query.as_str());
        accept(trimmed)
    } else {
        None
    }
}

/// Lets `url` pass if it is written in the URL alphabet.
pub fn accept(url: String) -> (passed: Option<String>)
    ensures
        text_of(passed) == checked(url@),
{
    if valid_url(&url) {
        Some(url)
    } else {
        None
    }
}

/// The candidate URLs that `seeds` stand for, in their order; a seed that
/// stands for none is left out.
pub open spec fn seeds_kept(seeds: Seq<Seq<char>>) -> Seq<Seq<char>>
    decreases seeds.len(),
{
    if seeds.len() == 0 {
        Seq::empty()
    } else {
        match cleansed(seeds.last()) {
            Some(clean) => seeds_kept(seeds.drop_last()).push(clean),
            None => seeds_kept(seeds.drop_last()),
        }
    }
}

/// The first of `seeds` that stands for no candidate URL.
pub open spec fn first_malformed(seeds: Seq<Seq<char>>) -> Option<Seq<char>>
    decreases seeds.len(),
{
    if seeds.len() == 0 {
        None
    } else {
        match first_malformed(seeds.drop_last()) {
            Some(bad) => Some(bad),
            None => if cleansed(seeds.last()) is None {
                Some(seeds.last())
            } else {
                None
            },
        }
    }
}

/// Turns the seed list into candidate URLs. A malformed seed is dropped,
/// or, in strict mode, handed back as the error.
pub fn cleanse_seeds(start_points: &Vec<String>, strict: bool) -> (seeds: Result<
    Vec<String>,
    String,
>)
    ensures
        match seeds {
            Ok(clean) => {
                &&& texts(clean@) == seeds_kept(texts(start_points@))
                &&& strict ==> first_malformed(texts(start_points@)) is None
            },
            Err(bad) => strict && first_malformed(texts(start_points@)) == Some(bad@),
        },
{
    let mut clean: Vec<String> = Vec::new();
    let mut at: usize = 0;
    assert(texts(start_points@).take(0) =~= Seq::empty());
    while at < start_points.len()
        invariant
            at <= start_points.len(),
            texts(clean@) == seeds_kept(texts(start_points@).take(at as int)),
            strict ==> first_malformed(texts(start_points@).take(at as int)) is None,
        decreases start_points.len() - at,
    {
        let ghost before = texts(clean@);
        proof {
            let seen = texts(start_points@).take(at + 1);
            assert(seen.last() == start_points[at as int]@);
            assert(seen.drop_last() =~= texts(start_points@).take(at as int));
        }
        match cleanse_url(start_points[at].as_str()) {
            Some(clean_url) => {
                clean.push(clean_url);
                assert(texts(clean@) =~= before.push(clean_url@));
            },
            None => {
                if strict {
                    proof {
                        lemma_first_malformed_stays(texts(start_points@), at + 1);
                    }
                    return Err(start_points[at].clone());
                }
            },
        }
        at += 1;
    }
    assert(texts(start_points@).take(start_points.len() as int) =~= texts(start_points@));
    Ok(clean)
}

/// The first malformed seed among the first `upto` is the first of all.
proof fn lemma_first_malformed_stays(seeds: Seq<Seq<char>>, upto: int)
    requires
        0 <= upto <= seeds.len(),
        first_malformed(seeds.take(upto)) is Some,
    ensures
        first_malformed(seeds) == first_malformed(seeds.take(upto)),
    decreases seeds.len() - upto,
{
    if upto == seeds.len() {
        assert(seeds.take(upto) =~= seeds);
    } else {
        assert(seeds.take(upto + 1).drop_last() =~= seeds.take(upto));
        lemma_first_malformed_stays(seeds, upto + 1);
    }
}

/// The address under which the candidate URL `cleansed_url` is fetched.
pub fn dirty_url(cleansed_url: &String) -> (address: String)
    ensures
        address@ == SCHEME@ + cleansed_url@,
{
    String::from_str(SCHEME).concat(cleansed_url.as_str())
}

/// Tells whether `url` is written in the URL alphabet.
pub fn valid_url(url: &String) -> (ok: bool)
    ensures
        ok == all_valid(url@),
{
    let mut ok = true;
    for ch in it: url.as_str().chars()
        invariant
            it.seq() == url@,
            ok == all_valid(url@.take(it.index() as int)),
    {
        proof {
            let seen = url@.take(it.index() as int);
            let next = url@.take(it.index() + 1);
            assert(ch == url@[it.index() as int]);
            assert(next == seen.push(ch));
            assert(all_valid(next) == (all_valid(seen) && valid_char(ch))) by {
                if all_valid(next) {
                    assert(valid_char(next[it.index() as int]));
                    assert forall|i: int| 0 <= i < seen.len() implies valid_char(
                        #[trigger] seen[i],
                    ) by {
                        assert(seen[i] == next[i]);
                    }
                }
            }
        }
        if !valid_url_char(ch) {
            ok = false;
        }
    }
    assert(url@.take(url@.len() as int) == url@);
    ok
}

} // verus!
