use vstd::prelude::*;
use crate::manifest::NAME_PATTERN;

verus! {

/// Whether `text` holds a match of the regular expression `pattern`.
pub uninterp spec fn regex_match(pattern: Seq<char>, text: Seq<char>) -> bool;

/// A character that a service name may hold: a digit, a lower case ASCII letter or a dash.
pub open spec fn name_char(c: char) -> bool {
    ('0' <= c && c <= '9') || ('a' <= c && c <= 'z') || c == '-'
}

/// Whether `t` matches the service name pattern: 1 to 40 name characters.
pub open spec fn name_shape(t: Seq<char>) -> bool {
    1 <= t.len() <= 40 && forall|i: int| 0 <= i < t.len() ==> name_char(#[trigger] t[i])
}

/// Relies on regex's `Regex::new` to compile `pattern` and on `Regex::is_match` to search
/// `text` with it; `None` where the pattern does not compile. `Regex::new` fails only on an
/// invalid pattern or one over the default size limit; the service name pattern is neither,
/// and it matches, anchored at both ends, 1 to 40 characters of `0-9`, `a-z` and `-`.
#[verifier::external_body]
pub(crate) fn pattern_matches(pattern: &str, text: &str) -> (r: Option<bool>)
    ensures
        r matches Some(b) ==> b == regex_match(pattern@, text@),
        pattern@ == NAME_PATTERN@ ==> r == Some(name_shape(text@)),
{
    match regex::Regex::new(pattern) {
        Ok(re) => Some(re.is_match(text)),
        Err(_) => None,
    }
}

} // verus!
