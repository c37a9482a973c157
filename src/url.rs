//! The parts of a parsed URL that the transport policy reads.

use vstd::prelude::*;

verus! {

/// `url::Url::parse` accepts the text.
pub uninterp spec fn url_parses(s: Seq<char>) -> bool;

/// The serialization (`Url::as_str`) of the parsed text.
pub uninterp spec fn url_href(s: Seq<char>) -> Seq<char>;

/// `Url::host_str` of the parsed text.
pub uninterp spec fn url_host(s: Seq<char>) -> Option<Seq<char>>;

/// `Url::path` of the parsed text.
pub uninterp spec fn url_path(s: Seq<char>) -> Seq<char>;

/// `Url::query` of the parsed text.
pub uninterp spec fn url_query(s: Seq<char>) -> Option<Seq<char>>;

/// `Url::origin().ascii_serialization()` of the parsed text.
pub uninterp spec fn url_origin(s: Seq<char>) -> Seq<char>;

/// A parsed absolute URL, held as plain text parts.
#[derive(Debug)]
pub struct UrlParts {
    pub href: String,
    pub host: Option<String>,
    pub path: String,
    pub query: Option<String>,
    pub origin: String,
}

pub open spec fn opt_view(o: Option<String>) -> Option<Seq<char>> {
    match o {
        Some(s) => Some(s@),
        None => None,
    }
}

impl UrlParts {
    /// These are the parts of the parse of `s`.
    pub open spec fn parsed_from(&self, s: Seq<char>) -> bool {
        &&& url_parses(s)
        &&& self.href@ == url_href(s)
        &&& opt_view(self.host) == url_host(s)
        &&& self.path@ == url_path(s)
        &&& opt_view(self.query) == url_query(s)
        &&& self.origin@ == url_origin(s)
    }

    /// The parts of `s`, where it parses as an absolute URL.
    pub fn parse(s: &str) -> (r: Option<UrlParts>)
        ensures
            r is Some <==> url_parses(s@),
            r matches Some(u) ==> u.parsed_from(s@),
    {
        parse_url(s)
    }
}

/// Relies on `url::Url::parse` and the accessors `as_str`, `host_str`, `path`,
/// `query` and `origin().ascii_serialization()` of its result.
#[verifier::external_body]
pub(crate) fn parse_url(s: &str) -> (r: Option<UrlParts>)
    ensures
        r is Some <==> url_parses(s@),
        r matches Some(u) ==> u.href@ == url_href(s@),
        r matches Some(u) ==> opt_view(u.host) == url_host(s@),
        r matches Some(u) ==> u.path@ == url_path(s@),
        r matches Some(u) ==> opt_view(u.query) == url_query(s@),
        r matches Some(u) ==> u.origin@ == url_origin(s@),
{
    let u = url::Url::parse(s).ok()?;
    Some(UrlParts {
        href: u.as_str().to_string(),
        host: u.host_str().map(|h| h.to_string()),
        path: u.path().to_string(),
        query: u.query().map(|q| q.to_string()),
        origin: u.origin().ascii_serialization(),
    })
}

} // verus!
