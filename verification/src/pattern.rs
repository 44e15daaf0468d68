//! The opaque pattern-matching primitive.
//!
//! The engine does not reimplement regular-expression matching: it hands a
//! pattern and the remaining input to the regex crate and trusts the span it
//! reports. `regex_search` names that span at the spec level; nothing in
//! this crate claims what the span is on given inputs, only that it lies
//! within the haystack.
//!
//! The pattern is compiled on every attempt; a caller that runs one
//! pattern often may cache outside the engine, which changes nothing the
//! contracts speak of.

use vstd::prelude::*;

verus! {

// The span that the regex crate reports for `pattern` on `haystack`: the
// byte offsets of the leftmost match, `None` when the pattern is not valid
// UTF-8, does not compile, or does not match. The span is a function of the
// two arguments alone.
pub uninterp spec fn regex_search(pattern: Seq<u8>, haystack: Seq<u8>) -> Option<(int, int)>;

/// Relies on `regex::bytes::Regex::new` and `Regex::find`: `find` reports
/// the leftmost match as byte offsets into the haystack (`Match::start` and
/// `Match::end`, with `start <= end <= haystack.len()`), and both functions
/// are deterministic in their arguments. A pattern that is not valid UTF-8
/// or does not compile is treated as matching nothing.
#[verifier::external_body]
pub(crate) fn regex_search_at(pattern: &[u8], haystack: &[u8]) -> (r: Option<(usize, usize)>)
    ensures
        match r {
            Some(span) => regex_search(pattern@, haystack@) == Some((span.0 as int, span.1 as int))
                && span.0 <= span.1 <= haystack@.len(),
            None => regex_search(pattern@, haystack@) is None,
        },
{
    let text = match core::str::from_utf8(pattern) {
        Ok(text) => text,
        Err(_) => return None,
    };
    let re = match regex::bytes::Regex::new(text) {
        Ok(re) => re,
        Err(_) => return None,
    };
    re.find(haystack).map(|m| (m.start(), m.end()))
}

} // verus!
