//! Addresses of web pages: the scheme every launcher's address carries, what
//! the `url` crate makes of an address, and the search token of a host.

use crate::browser::concat;
use crate::text::{begins_with, chars_of, pieces, split, starts_with};
use url::Url;
use vstd::prelude::*;
use vstd::string::StringExecFns;

verus! {

/// Whether `Url::parse` accepts the text as an absolute address.
pub uninterp spec fn url_parses(input: Seq<char>) -> bool;

/// The host that `Url::host_str` reports of the text once `Url::parse` has
/// accepted it; `None` where it is not accepted or holds no host.
pub uninterp spec fn url_host(input: Seq<char>) -> Option<Seq<char>>;

/// The address that `Url::join` makes of a reference found in the page at
/// `base`; `None` where either text is not accepted.
pub uninterp spec fn url_join(base: Seq<char>, reference: Seq<char>) -> Option<Seq<char>>;

/// `Url::parse` of the `url` crate: whether it returns `Ok` for this text. The
/// answer depends on the text alone.
#[verifier::external_body]
pub(crate) fn parses_as_url(input: &str) -> (r: bool)
    ensures
        r == url_parses(input@),
{
    Url::parse(input).is_ok()
}

/// `Url::host_str` of the `url` crate, on what `Url::parse` makes of the text:
/// the host as the crate writes it.
#[verifier::external_body]
pub(crate) fn host_of_url(input: &str) -> (r: Option<String>)
    ensures
        r.deep_view() == url_host(input@),
{
    match Url::parse(input) {
        Ok(parsed) => match parsed.host_str() {
            Some(host) => Some(host.to_string()),
            None => None,
        },
        Err(_) => None,
    }
}

/// `Url::join` of the `url` crate, on what `Url::parse` makes of `base`: the
/// serialization of the address that `reference` names when found at `base`.
#[verifier::external_body]
pub(crate) fn join_url(base: &str, reference: &str) -> (r: Option<String>)
    ensures
        r.deep_view() == url_join(base@, reference@),
{
    match Url::parse(base) {
        Ok(parsed) => match parsed.join(reference) {
            Ok(joined) => Some(joined.as_str().to_string()),
            Err(_) => None,
        },
        Err(_) => None,
    }
}

/// The address names its scheme, `http` or `https`.
pub open spec fn has_scheme(url: Seq<char>) -> bool {
    begins_with(url, "http://"@) || begins_with(url, "https://"@)
}

/// The address with a scheme: unchanged where it names one, else with `https`.
pub open spec fn normalized(url: Seq<char>) -> Seq<char> {
    if has_scheme(url) {
        url
    } else {
        "https://"@ + url
    }
}

/// The label before the last one of a host, or the host itself where it has a
/// single label.
pub open spec fn token_of_host(host: Seq<char>) -> Seq<char> {
    let labels = pieces(host, '.');
    if labels.len() >= 2 {
        labels[labels.len() - 2]
    } else {
        host
    }
}

/// The search token of an address, from its host; empty where it has none.
pub open spec fn search_token(host: Option<Seq<char>>) -> Seq<char> {
    match host {
        Some(h) => token_of_host(h),
        None => Seq::empty(),
    }
}

/// The address with a scheme: a bare host gets `https://` in front.
pub fn normalize_url(url: &str) -> (r: String)
    ensures
        r@ == normalized(url@),
{
    if is_remote(url) {
        String::from_str(url)
    } else {
        concat("https://", url)
    }
}

/// Whether the source is an address to fetch from, not a path to read: whether
/// it names the scheme `http` or `https`.
pub fn is_remote(source: &str) -> (r: bool)
    ensures
        r == has_scheme(source@),
{
    starts_with(source, "http://") || starts_with(source, "https://")
}

/// The search token of a host: `example` for `www.example.com`.
pub fn token_from_host(host: Option<String>) -> (r: String)
    ensures
        r@ == search_token(host.deep_view()),
{
    match host {
        Some(h) => {
            let labels = split(&chars_of(h.as_str()), '.');
            if labels.len() >= 2 {
                let r = labels[labels.len() - 2].clone();
                assert(labels.deep_view()[labels.len() - 2] == labels@[labels.len() - 2]@);
                r
            } else {
                h
            }
        },
        None => String::new(),
    }
}

/// A short token that identifies the site of `url`, to search an icon by.
pub fn derive_search_token(url: &str) -> (r: String)
    ensures
        r@ == search_token(url_host(url@)),
{
    token_from_host(host_of_url(url))
}

/// A normalized address names its scheme, and normalizing it again changes
/// nothing.
pub proof fn normalized_carries_scheme(url: Seq<char>)
    ensures
        has_scheme(normalized(url)),
        normalized(normalized(url)) == normalized(url),
        !has_scheme(url) ==> normalized(url) == "https://"@ + url,
{
    if !has_scheme(url) {
        let prefix = "https://"@;
        assert((prefix + url).subrange(0, prefix.len() as int) =~= prefix);
    }
}

} // verus!
