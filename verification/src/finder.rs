//! Finding IP addresses and domain names in text.

use crate::cdn::{compile, regex_built_plain, regex_compiles, regex_source};
use vstd::prelude::*;

verus! {

/// The regular expression for IPv4 addresses: four numbers up to 255,
/// separated by dots.
pub const IPV4_PATTERN: &'static str =
    r"(?:(?:25[0-5]|2[0-4][0-9]|[01]?[0-9][0-9]?)\.){3}(?:25[0-5]|2[0-4][0-9]|[01]?[0-9][0-9]?)";

/// The regular expression for IPv6 addresses, in full and in compressed
/// notation.
pub const IPV6_PATTERN: &'static str =
    r"fe80:(:[0-9a-fA-F]{1,4}){0,4}(%\w+)?|([0-9a-fA-F]{1,4}:){7}[0-9a-fA-F]{1,4}|64:ff9b::(25[0-5]|2[0-4][0-9]|[01]?[0-9][0-9]?)(\.(25[0-5]|2[0-4][0-9]|[01]?[0-9][0-9]?)){3}|::[fF]{4}:(25[0-5]|2[0-4][0-9]|[01]?[0-9][0-9]?)(\.(25[0-5]|2[0-4][0-9]|[01]?[0-9][0-9]?)){3}|(([0-9a-fA-F]{1,4}:){0,6}[0-9a-fA-F]{1,4})?::(([0-9a-fA-F]{1,4}:){0,6}[0-9a-fA-F]{1,4})?";

/// The regular expression for domain names: labels separated by dots.
pub const DOMAIN_PATTERN: &'static str =
    r"(?i)(?:[a-z0-9](?:[a-z0-9-]{0,61}[a-z0-9])?\.)+[a-z0-9][a-z0-9-]{0,61}[a-z0-9]";

/// A match, as mathematical values: where it starts and ends in the text,
/// in bytes, and the text matched.
pub type MatchView = (usize, usize, Seq<char>);

/// The matches of the regular expression `pattern` in `text` that do not
/// overlap, from left to right.
pub uninterp spec fn regex_find_all(pattern: Seq<char>, text: Seq<char>) -> Seq<MatchView>;

/// The matches of a vector, as mathematical values.
pub open spec fn matches_view(v: Seq<(usize, usize, String)>) -> Seq<MatchView> {
    Seq::new(v.len(), |i: int| (v[i].0, v[i].1, v[i].2@))
}

/// Calls `regex::Regex::find_iter`, which yields the successive
/// non-overlapping matches of the expression in the text, and hands out of
/// each its start, its end and the text matched. For an expression built
/// by `Regex::new` the matches depend on the pattern and the text alone;
/// the contract gives them the name `regex_find_all`. An expression built
/// with other options is not admitted.
#[verifier::external_body]
fn find_iter(re: &regex::Regex, text: &str) -> (r: Vec<(usize, usize, String)>)
    requires
        regex_built_plain(*re),
    ensures
        matches_view(r@) == regex_find_all(regex_source(*re), text@),
{
    re.find_iter(text).map(|m| (m.start(), m.end(), m.as_str().to_string())).collect()
}

/// The matches of `pattern` in `text`; none where the pattern does not
/// compile.
pub open spec fn found(pattern: Seq<char>, text: Seq<char>) -> Seq<MatchView> {
    if regex_compiles(pattern) {
        regex_find_all(pattern, text)
    } else {
        Seq::empty()
    }
}

/// Finds the matches of `pattern` in `text`.
pub fn find_all(pattern: &str, text: &str) -> (r: Vec<(usize, usize, String)>)
    ensures
        matches_view(r@) == found(pattern@, text@),
{
    match compile(pattern) {
        Some(re) => find_iter(&re, text),
        None => {
            let none: Vec<(usize, usize, String)> = Vec::new();
            assert(matches_view(none@) == Seq::<MatchView>::empty());
            none
        },
    }
}

/// Finds the IPv4 addresses in `text`, with their positions.
pub fn find_ipv4(text: &str) -> (r: Vec<(usize, usize, String)>)
    ensures
        matches_view(r@) == found(IPV4_PATTERN@, text@),
{
    find_all(IPV4_PATTERN, text)
}

/// Finds the IPv6 addresses in `text`, with their positions.
pub fn find_ipv6(text: &str) -> (r: Vec<(usize, usize, String)>)
    ensures
        matches_view(r@) == found(IPV6_PATTERN@, text@),
{
    find_all(IPV6_PATTERN, text)
}

/// Finds the domain names in `text`, with their positions.
pub fn find_domains(text: &str) -> (r: Vec<(usize, usize, String)>)
    ensures
        matches_view(r@) == found(DOMAIN_PATTERN@, text@),
{
    find_all(DOMAIN_PATTERN, text)
}

} // verus!
