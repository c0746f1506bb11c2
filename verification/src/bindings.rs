//! Calls into `std`, `regex` and `rand` whose behaviour the verifier takes on
//! trust. Every function here is a thin wrapper around one outside call; its
//! contract states what the outside documentation promises and nothing else.

use rand::rngs::ThreadRng;
use rand::Rng;
use regex::Regex;
use vstd::prelude::*;
use crate::crawler_datatypes::texts;

verus! {

/// Whether `c` is alphabetic or numeric in the sense of Unicode, as
/// `char::is_alphanumeric` decides it.
pub uninterp spec fn is_alphanumeric(c: char) -> bool;

/// `char::is_alphanumeric`: the answer depends on the character alone, so it
/// is given the name [`is_alphanumeric`].
#[verifier::external_body]
pub(crate) fn char_is_alphanumeric(c: char) -> (b: bool)
    ensures
        b == is_alphanumeric(c),
{
    c.is_alphanumeric()
}

/// `text` without the white space at its two ends, as `str::trim` returns it.
pub uninterp spec fn trimmed(text: Seq<char>) -> Seq<char>;

/// `str::trim`: the result depends on the text alone, so it is given the
/// name [`trimmed`].
#[verifier::external_body]
pub(crate) fn trim(text: &str) -> (out: String)
    ensures
        out@ == trimmed(text@),
{
    text.trim().to_string()
}

/// Whether the regular expression `pattern` matches anywhere in `haystack`,
/// as `Regex::is_match` decides it; `false` where `pattern` does not compile.
pub uninterp spec fn regex_is_match(pattern: Seq<char>, haystack: Seq<char>) -> bool;

/// The text of the first match of `pattern` in `haystack`, as `Regex::find`
/// returns it; `None` where there is no match or `pattern` does not compile.
pub uninterp spec fn regex_find(pattern: Seq<char>, haystack: Seq<char>) -> Option<Seq<char>>;

/// The texts of the successive matches of `pattern` in `haystack`, in the
/// order in which `Regex::find_iter` yields them; empty where `pattern` does
/// not compile.
pub uninterp spec fn regex_find_iter(pattern: Seq<char>, haystack: Seq<char>) -> Seq<Seq<char>>;

/// `haystack` with the first match of `pattern` replaced by `rep`, as
/// `Regex::replace` returns it; `haystack` itself where `pattern` does not
/// compile.
pub uninterp spec fn regex_replace(pattern: Seq<char>, haystack: Seq<char>, rep: Seq<char>) -> Seq<
    char,
>;

/// `Regex::is_match`, with the pattern compiled by `Regex::new`. The answer
/// is a function of pattern and haystack; it goes by the name
/// [`regex_is_match`].
#[verifier::external_body]
pub(crate) fn is_match(pattern: &str, haystack: &str) -> (found: bool)
    ensures
        found == regex_is_match(pattern@, haystack@),
{
    match Regex::new(pattern) {
        Ok(re) => re.is_match(haystack),
        Err(_) => false,
    }
}

/// `Regex::find`, with the pattern compiled by `Regex::new`; the match is
/// handed out as its text. The result is a function of pattern and haystack;
/// it goes by the name [`regex_find`].
#[verifier::external_body]
pub(crate) fn find(pattern: &str, haystack: &str) -> (found: Option<String>)
    ensures
        match found {
            Some(text) => regex_find(pattern@, haystack@) == Some(text@),
            None => regex_find(pattern@, haystack@) is None,
        },
{
    match Regex::new(pattern) {
        Ok(re) => re.find(haystack).map(|m| m.as_str().to_string()),
        Err(_) => None,
    }
}

/// `Regex::find_iter`, with the pattern compiled by `Regex::new`; each match
/// is handed out as its text. The result is a function of pattern and
/// haystack; it goes by the name [`regex_find_iter`].
#[verifier::external_body]
pub(crate) fn find_iter(pattern: &str, haystack: &str) -> (found: Vec<String>)
    ensures
        texts(found@) == regex_find_iter(pattern@, haystack@),
{
    match Regex::new(pattern) {
        Ok(re) => re.find_iter(haystack).map(|m| m.as_str().to_string()).collect(),
        Err(_) => Vec::new(),
    }
}

/// `Regex::replace`, with the pattern compiled by `Regex::new`. The result
/// is a function of pattern, haystack and replacement; it goes by the name
/// [`regex_replace`].
#[verifier::external_body]
pub(crate) fn replace(pattern: &str, haystack: &str, rep: &str) -> (out: String)
    ensures
        out@ == regex_replace(pattern@, haystack@, rep@),
{
    match Regex::new(pattern) {
        Ok(re) => re.replace(haystack, rep).into_owned(),
        Err(_) => haystack.to_string(),
    }
}

/// `rand::rngs::ThreadRng`, the handle to the thread's random number
/// generator. Nothing is known of what it holds.
#[verifier::external_type_specification]
#[verifier::external_body]
pub struct ExThreadRng(ThreadRng);

/// `rand::thread_rng`: hands out the calling thread's generator.
#[verifier::external_body]
pub(crate) fn thread_generator() -> ThreadRng {
    rand::thread_rng()
}

/// `Rng::gen_range` on `0..len`: the draw lies in the range, and that is all
/// that is known of it. An empty range would make the call panic, so `len`
/// has to be positive.
#[verifier::external_body]
pub(crate) fn random_index(rng: &mut ThreadRng, len: usize) -> (index: usize)
    requires
        len > 0,
    ensures
        index < len,
{
    rng.gen_range(0..len)
}

} // verus!
