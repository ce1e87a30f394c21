//! URLs and word characters, as computed by the `url` parser (through
//! `reqwest::Url`) and the `regex` crate. A URL is held as its serialized
//! text.

use vstd::prelude::*;
use crate::dom::opt_view;
use reqwest::Url;
use regex::Regex;

verus! {

/// Serialization of the absolute URL parsed from `s`, if it parses.
pub uninterp spec fn url_parse(s: Seq<char>) -> Option<Seq<char>>;

/// Serialization of `rel` resolved against the URL `base`.
pub uninterp spec fn url_join(base: Seq<char>, rel: Seq<char>) -> Option<Seq<char>>;

/// Host of the URL `u`, when it parses and has one.
pub uninterp spec fn url_host(u: Seq<char>) -> Option<Seq<char>>;

/// The URL `u` with its scheme replaced.
pub uninterp spec fn url_with_scheme(u: Seq<char>, scheme: Seq<char>) -> Option<Seq<char>>;

/// The URL `u` with its host replaced.
pub uninterp spec fn url_with_host(u: Seq<char>, host: Seq<char>) -> Option<Seq<char>>;

/// Whether the non-ASCII character `c` belongs to the regex class `\w`.
pub uninterp spec fn is_wide_word_char(c: char) -> bool;

/// Membership in the regex class `\w` (Unicode word characters): among ASCII
/// characters exactly letters, digits and `_`.
pub open spec fn is_word_char(c: char) -> bool {
    if (c as u32) < 128 {
        'a' <= c <= 'z' || 'A' <= c <= 'Z' || '0' <= c <= '9' || c == '_'
    } else {
        is_wide_word_char(c)
    }
}

/// The characters of `s` that are word characters, in order.
pub open spec fn word_chars(s: Seq<char>) -> Seq<char> {
    s.filter(|c: char| is_word_char(c))
}

/// Relies on `Url::parse`: the absolute URL parsed from `s`; the empty string
/// is a relative URL with no base and never parses.
#[verifier::external_body]
pub(crate) fn parse_url(s: &str) -> (r: Option<String>)
    ensures
        opt_view(r) == url_parse(s@),
        s@.len() == 0 ==> r is None,
{
    Url::parse(s).ok().map(|u| u.as_str().to_string())
}

/// Relies on `Url::join`: `rel` resolved against `base` (parsed as a `Url`).
#[verifier::external_body]
pub(crate) fn join_url(base: &str, rel: &str) -> (r: Option<String>)
    ensures
        opt_view(r) == url_join(base@, rel@),
{
    Url::parse(base).ok().and_then(|b| b.join(rel).ok()).map(|u| u.as_str().to_string())
}

/// Relies on `Url::host_str`: the host of `u` (parsed as a `Url`).
#[verifier::external_body]
pub(crate) fn host_of(u: &str) -> (r: Option<String>)
    ensures
        opt_view(r) == url_host(u@),
{
    Url::parse(u).ok().and_then(|v| v.host_str().map(|h| h.to_string()))
}

/// Relies on `Url::set_scheme`: `u` (parsed as a `Url`) with scheme `scheme`.
#[verifier::external_body]
pub(crate) fn set_scheme(u: &str, scheme: &str) -> (r: Option<String>)
    ensures
        opt_view(r) == url_with_scheme(u@, scheme@),
{
    let mut v = Url::parse(u).ok()?;
    v.set_scheme(scheme).ok()?;
    Some(v.as_str().to_string())
}

/// Relies on `Url::set_host`: `u` (parsed as a `Url`) with host `host`.
#[verifier::external_body]
pub(crate) fn set_host(u: &str, host: &str) -> (r: Option<String>)
    ensures
        opt_view(r) == url_with_host(u@, host@),
{
    let mut v = Url::parse(u).ok()?;
    v.set_host(Some(host)).ok()?;
    Some(v.as_str().to_string())
}

/// Relies on `Regex::replace_all` with the class `\W` and an empty
/// replacement: every non-word character is removed, the others kept in
/// order.
#[verifier::external_body]
pub(crate) fn strip_non_word(s: &str) -> (r: String)
    ensures
        r@ == word_chars(s@),
        forall|i: int| 0 <= i < r@.len() && (r@[i] as u32) >= 128 ==> is_wide_word_char(#[trigger] r@[i]),
{
    Regex::new(r"\W").unwrap().replace_all(s, "").into_owned()
}

} // verus!

verus! {

/// `s` percent-encoded as UTF-8 with every byte but ASCII letters and digits escaped.
pub uninterp spec fn url_encoded(s: Seq<char>) -> Seq<char>;

/// Relies on `percent_encoding::utf8_percent_encode` with the set `NON_ALPHANUMERIC`.
#[verifier::external_body]
pub(crate) fn percent_encode(s: &str) -> (r: String)
    ensures
        r@ == url_encoded(s@),
{
    percent_encoding::utf8_percent_encode(s, percent_encoding::NON_ALPHANUMERIC).to_string()
}

} // verus!
