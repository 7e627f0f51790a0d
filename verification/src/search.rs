//! Pattern search over source text, done by the `regex` crate.
use vstd::prelude::*;
use vstd::string::*;
use vstd::utf8::*;

verus! {

/// The byte span `(start, end)` of the leftmost-first match of `pattern` in
/// `haystack` that begins at or after byte offset `from`, as `regex` finds it;
/// `None` where there is no such match or `pattern` is not a valid regex.
pub uninterp spec fn regex_find_at(pattern: Seq<char>, haystack: Seq<char>, from: usize) -> Option<(usize, usize)>;

/// The byte span of the capture group called `group` in the first match of
/// `pattern` in `haystack`, as `regex` reports it; `None` where there is no
/// match, the group took no part in it, or `pattern` is not a valid regex.
pub uninterp spec fn regex_capture(pattern: Seq<char>, haystack: Seq<char>, group: Seq<char>) -> Option<(usize, usize)>;

/// Compiles `pattern` with `regex::Regex::new` and searches `haystack` from
/// byte offset `from` with `Regex::find_at`.
///
/// Claimed of the outside code: the result is the named `regex_find_at`
/// of the arguments (`None` also where the pattern does not compile); a
/// match lies inside `from..haystack.len()` and both of its ends fall on
/// UTF-8 character boundaries, as `regex` documents for `Match::start` and
/// `Match::end`. `find_at` panics for `from > haystack.len()`, which
/// `requires` leaves out.
#[verifier::external_body]
pub(crate) fn find_at(pattern: &str, haystack: &str, from: usize) -> (r: Option<(usize, usize)>)
    requires
        from <= haystack.spec_bytes().len(),
    ensures
        r == regex_find_at(pattern@, haystack@, from),
        r matches Some((s, e)) ==> {
            &&& from <= s <= e <= haystack.spec_bytes().len()
            &&& is_char_boundary(haystack.spec_bytes(), s as int)
            &&& is_char_boundary(haystack.spec_bytes(), e as int)
        },
{
    match regex::Regex::new(pattern) {
        Ok(re) => re.find_at(haystack, from).map(|m| (m.start(), m.end())),
        Err(_) => None,
    }
}

/// Compiles `pattern` with `regex::Regex::new`, takes the first match in
/// `haystack` with `Regex::captures`, and reads the group called `group`
/// with `Captures::name`.
///
/// Claimed of the outside code: the result is the named `regex_capture` of
/// the arguments; a span lies inside the haystack and its ends fall on
/// UTF-8 character boundaries, as `regex` documents for `Match`.
#[verifier::external_body]
pub(crate) fn capture(pattern: &str, haystack: &str, group: &str) -> (r: Option<(usize, usize)>)
    ensures
        r == regex_capture(pattern@, haystack@, group@),
        r matches Some((s, e)) ==> {
            &&& s <= e <= haystack.spec_bytes().len()
            &&& is_char_boundary(haystack.spec_bytes(), s as int)
            &&& is_char_boundary(haystack.spec_bytes(), e as int)
        },
{
    match regex::Regex::new(pattern) {
        Ok(re) => re.captures(haystack)?.name(group).map(|m| (m.start(), m.end())),
        Err(_) => None,
    }
}

} // verus!
