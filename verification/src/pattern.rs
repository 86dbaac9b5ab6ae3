//! Regular-expression matching on attribute text, done by the `regex`
//! engine that `lazy_regex` re-exports.

use vstd::prelude::*;

verus! {

/// The text of capture group 1 in the leftmost-first match of the regular
/// expression `pattern` in `text` (the empty text when that group takes no
/// part in the match); `None` when `pattern` does not match anywhere in
/// `text`, or does not compile.
pub uninterp spec fn regex_first_group(pattern: Seq<char>, text: Seq<char>) -> Option<Seq<char>>;

/// Whether the regular expression `pattern` matches somewhere in `text`;
/// `false` when `pattern` does not compile.
pub uninterp spec fn regex_matches(pattern: Seq<char>, text: Seq<char>) -> bool;

/// Calls `lazy_regex::Regex::new` (the `regex` crate's `Regex`), then
/// `Regex::captures` and `Captures::get(1)`. Trusted to return, as an owned
/// string, exactly the capture named by `regex_first_group` for these two
/// arguments: the `regex` crate's matching depends on nothing else.
#[verifier::external_body]
pub(crate) fn first_group(pattern: &str, text: &str) -> (r: Option<String>)
    ensures
        r.deep_view() == regex_first_group(pattern@, text@),
{
    match lazy_regex::Regex::new(pattern) {
        Ok(re) => match re.captures(text) {
            Some(caps) => match caps.get(1) {
                Some(group) => Some(group.as_str().to_string()),
                None => Some(String::new()),
            },
            None => None,
        },
        Err(_) => None,
    }
}

/// Calls `lazy_regex::Regex::new` (the `regex` crate's `Regex`), then
/// `Regex::is_match`. Trusted to return exactly `regex_matches` of its two
/// arguments.
#[verifier::external_body]
pub(crate) fn is_match(pattern: &str, text: &str) -> (r: bool)
    ensures
        r == regex_matches(pattern@, text@),
{
    match lazy_regex::Regex::new(pattern) {
        Ok(re) => re.is_match(text),
        Err(_) => false,
    }
}

} // verus!
