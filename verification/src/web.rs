//! Trusted access to the `url` crate: resolving a link against a base,
//! comparing hosts, and reading a URL's path segments.
use vstd::prelude::*;

verus! {

/// The URL that resolving `href` against the base URL `base` yields
/// (standard base + relative resolution), or nothing when either step
/// fails; a function of the two strings alone.
pub uninterp spec fn resolved_of(base: Seq<char>, href: Seq<char>) -> Option<Seq<char>>;

/// Relies on `url::Url::parse` and `url::Url::join`: parses the base,
/// resolves `href` against it, and renders the result; parse or join
/// failure yields nothing.
#[verifier::external_body]
pub(crate) fn resolve_href(base: &str, href: &str) -> (r: Option<String>)
    ensures
        r.deep_view() == resolved_of(base@, href@),
{
    match url::Url::parse(base).and_then(|b| b.join(href)) {
        Ok(u) => Some(u.to_string()),
        Err(_) => None,
    }
}

/// Whether the two strings parse as URLs whose hosts are equal
/// (both hosts may be absent); false when either fails to parse.
/// A function of the two strings alone.
pub uninterp spec fn same_host_of(a: Seq<char>, b: Seq<char>) -> bool;

/// Relies on `url::Url::parse` and `url::Url::host`: true exactly when
/// both strings parse and their parsed hosts compare equal.
#[verifier::external_body]
pub(crate) fn same_host(a: &str, b: &str) -> (r: bool)
    ensures
        r == same_host_of(a@, b@),
{
    match (url::Url::parse(a), url::Url::parse(b)) {
        (Ok(x), Ok(y)) => x.host() == y.host(),
        _ => false,
    }
}

/// The path segments of the string seen as a URL: nothing when it does
/// not parse; the (possibly empty) segment list otherwise, where a URL
/// that cannot be a base counts as having no segments. A function of
/// the string alone.
pub uninterp spec fn url_segments(u: Seq<char>) -> Option<Seq<Seq<char>>>;

/// Relies on `url::Url::parse` and `url::Url::path_segments`: the
/// segments of the URL's path, split at every slash after the leading
/// one; an unparsable string yields nothing, a cannot-be-a-base URL an
/// empty list.
#[verifier::external_body]
pub(crate) fn path_segments_of(u: &str) -> (r: Option<Vec<String>>)
    ensures
        r.deep_view() == url_segments(u@),
{
    match url::Url::parse(u) {
        Ok(parsed) => Some(
            match parsed.path_segments() {
                Some(segs) => segs.map(|s| s.to_string()).collect(),
                None => Vec::new(),
            },
        ),
        Err(_) => None,
    }
}

} // verus!
