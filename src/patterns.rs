//! Pattern matching for rules: a regular expression, or exact equality when
//! the pattern is not a valid regular expression.

use vstd::prelude::*;
use crate::text::{str_eq, string_views};

verus! {

/// Whether a pattern is a valid regular expression.
pub uninterp spec fn regex_valid(p: Seq<char>) -> bool;

/// Whether the regular expression `p` matches somewhere in `t`.
pub uninterp spec fn regex_matches(p: Seq<char>, t: Seq<char>) -> bool;

/// Relies on regex's `Regex::new`, which fails exactly on patterns that are not
/// valid, and `Regex::is_match`, which reports a match anywhere in the text;
/// both depend on their arguments alone.
#[verifier::external_body]
pub(crate) fn regex_is_match(pattern: &str, text: &str) -> (r: Option<bool>)
    ensures
        r.is_some() == regex_valid(pattern@),
        r.is_some() ==> r.unwrap() == regex_matches(pattern@, text@),
{
    match regex::Regex::new(pattern) {
        Ok(re) => Some(re.is_match(text)),
        Err(_) => None,
    }
}

/// Whether a rule pattern matches a text: as a regular expression, or by
/// equality when the pattern is not a valid one.
pub open spec fn pattern_matches(p: Seq<char>, t: Seq<char>) -> bool {
    if regex_valid(p) {
        regex_matches(p, t)
    } else {
        p == t
    }
}

/// Whether some pattern of `ps` matches `t`.
pub open spec fn any_pattern_matches(ps: Seq<Seq<char>>, t: Seq<char>) -> bool {
    exists|i: int| 0 <= i < ps.len() && pattern_matches(#[trigger] ps[i], t)
}

/// Matches `text` against a rule pattern.
pub fn match_pattern(pattern: &str, text: &str) -> (r: bool)
    ensures
        r == pattern_matches(pattern@, text@),
{
    match regex_is_match(pattern, text) {
        Some(m) => m,
        None => str_eq(pattern, text),
    }
}

/// Whether some pattern of `patterns` matches `text`.
pub fn match_any(patterns: &Vec<String>, text: &str) -> (r: bool)
    ensures
        r == any_pattern_matches(string_views(patterns@), text@),
{
    let ghost ps = string_views(patterns@);
    let mut i: usize = 0;
    while i < patterns.len()
        invariant
            i <= patterns@.len(),
            ps == string_views(patterns@),
            forall|j: int| 0 <= j < i ==> !pattern_matches(#[trigger] ps[j], text@),
        decreases patterns@.len() - i,
    {
        if match_pattern(patterns[i].as_str(), text) {
            proof {
                assert(ps[i as int] == patterns@[i as int]@);
            }
            return true;
        }
        proof {
            assert(ps[i as int] == patterns@[i as int]@);
        }
        i = i + 1;
    }
    false
}

} // verus!
