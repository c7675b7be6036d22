//! Regular expressions, compiled and run by the `regex` crate.
use vstd::prelude::*;
use vstd::utf8::{encode_utf8, is_char_boundary};

verus! {

/// The message of the error `regex::Regex::new` returns for `pattern`;
/// `None` when the pattern compiles.
pub uninterp spec fn regex_new_error(pattern: Seq<char>) -> Option<Seq<char>>;

/// Whether the compiled `pattern` matches somewhere in `haystack`
/// (`regex::Regex::is_match`).
pub uninterp spec fn regex_is_match(pattern: Seq<char>, haystack: Seq<char>) -> bool;

/// Compiles `pattern` with `regex::Regex::new`; on failure returns the
/// error's message (its `Display` text), else `None`.  Claimed: the result is
/// [`regex_new_error`] of the pattern.
#[verifier::external_body]
pub(crate) fn regex_error(pattern: &str) -> (r: Option<String>)
    ensures
        match r {
            Some(m) => regex_new_error(pattern@) == Some(m@),
            None => regex_new_error(pattern@) is None,
        },
{
    regex::Regex::new(pattern).err().map(|e| e.to_string())
}

/// Compiles `pattern` with `regex::Regex::new` and runs
/// `regex::Regex::is_match` on `haystack`.  Claimed: the result is
/// [`regex_is_match`] of the pattern and the haystack, for a pattern that
/// compiles.
#[verifier::external_body]
pub(crate) fn regex_matches(pattern: &str, haystack: &str) -> (r: bool)
    requires
        regex_new_error(pattern@) is None,
    ensures
        r == regex_is_match(pattern@, haystack@),
{
    match regex::Regex::new(pattern) {
        Ok(re) => re.is_match(haystack),
        Err(_) => false,
    }
}

/// The byte ranges `(start, end)` of the successive non-overlapping matches
/// of the compiled `pattern` in the UTF-8 encoding of `haystack`
/// (`regex::Regex::find_iter`).
pub uninterp spec fn regex_find_spans(pattern: Seq<char>, haystack: Seq<char>) -> Seq<(usize, usize)>;

/// Compiles `pattern` with `regex::Regex::new` and collects the start and
/// end byte offsets of each match `regex::Regex::find_iter` yields in
/// `haystack`.  Claimed: the result is [`regex_find_spans`] of the pattern and
/// the haystack, for a pattern that compiles; and, as the `regex::Match`
/// documentation states, each start is at most its end, and both lie on
/// UTF-8 character boundaries within the haystack.
#[verifier::external_body]
pub(crate) fn regex_find_all(pattern: &str, haystack: &str) -> (r: Vec<(usize, usize)>)
    requires
        regex_new_error(pattern@) is None,
    ensures
        r@ == regex_find_spans(pattern@, haystack@),
        forall|i: int|
            0 <= i < r@.len() ==> {
                let (s, e) = #[trigger] r@[i];
                &&& s <= e <= encode_utf8(haystack@).len()
                &&& is_char_boundary(encode_utf8(haystack@), s as int)
                &&& is_char_boundary(encode_utf8(haystack@), e as int)
            },
{
    match regex::Regex::new(pattern) {
        Ok(re) => re.find_iter(haystack).map(|m| (m.start(), m.end())).collect(),
        Err(_) => Vec::new(),
    }
}

} // verus!
