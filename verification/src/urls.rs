//! Absolute-URL handling, delegated to the `url` crate through `reqwest`.
//!
//! The core never interprets a URL's inner structure; it only normalizes
//! the configured base URL once and joins routes onto it. Both results are
//! functions of their arguments alone, so they are named rather than
//! spelled out.

use vstd::prelude::*;

verus! {

/// What `reqwest::Url::parse` makes of `s`: the parsed URL's serialization,
/// or nothing when `s` is not a valid absolute URL.
pub uninterp spec fn spec_base_url(s: Seq<char>) -> Option<Seq<char>>;

/// What joining `rel` onto the URL parsed from `base` yields: the joined
/// URL's serialization, or nothing when parsing or joining fails.
pub uninterp spec fn spec_joined_url(base: Seq<char>, rel: Seq<char>) -> Option<Seq<char>>;

/// Relies on `reqwest::Url::parse` (the `url` crate's `Url`): parses an
/// absolute URL and serializes it back in normalized form. The result is a
/// function of the text alone.
#[verifier::external_body]
pub(crate) fn parse_base_url(s: &str) -> (r: Option<String>)
    ensures
        match r {
            Some(u) => spec_base_url(s@) == Some(u@),
            None => spec_base_url(s@) is None,
        },
{
    match reqwest::Url::parse(s) {
        Ok(u) => Some(u.as_str().to_owned()),
        Err(_) => None,
    }
}

/// Relies on `reqwest::Url::parse` and `reqwest::Url::join` (the `url`
/// crate's `Url`): joins a possibly relative route onto a base URL. The
/// result is a function of the two texts alone.
#[verifier::external_body]
pub(crate) fn join_url(base: &str, rel: &str) -> (r: Option<String>)
    ensures
        match r {
            Some(u) => spec_joined_url(base@, rel@) == Some(u@),
            None => spec_joined_url(base@, rel@) is None,
        },
{
    match reqwest::Url::parse(base) {
        Ok(u) => match u.join(rel) {
            Ok(j) => Some(j.as_str().to_owned()),
            Err(_) => None,
        },
        Err(_) => None,
    }
}

} // verus!
