//! The parts of a parsed URL that cache naming reads, held as plain strings.
use vstd::prelude::*;
use crate::error::CacheError;

verus! {

#[verifier::external_type_specification]
#[verifier::external_body]
pub struct ExParseError(url::ParseError);

/// The scheme, host, port, path, query and fragment of the URL that a string
/// parses to, or nothing when it is not an absolute URL.
pub uninterp spec fn parsed_url(s: Seq<char>) -> Option<
    (Seq<char>, Option<Seq<char>>, Option<u16>, Seq<char>, Option<Seq<char>>, Option<Seq<char>>),
>;

/// Relies on `url::Url::parse` and the URL's accessors `scheme`, `host_str`,
/// `port` (absent when it is the scheme's default), `path`, `query` and
/// `fragment`: the parts depend on the text alone, and an `http` or `https`
/// URL always has a host (the parser refuses an empty one).
#[verifier::external_body]
fn parse_parts(s: &str) -> (r: Result<
    (String, Option<String>, Option<u16>, String, Option<String>, Option<String>),
    url::ParseError,
>)
    ensures
        r is Ok ==> parsed_url(s@) == Some(parts_view(r->Ok_0)),
        r is Err ==> parsed_url(s@) is None,
        r is Ok && (r->Ok_0.0@ == "http"@ || r->Ok_0.0@ == "https"@) ==> r->Ok_0.1 is Some,
{
    let u = url::Url::parse(s)?;
    let owned = |o: Option<&str>| o.map(String::from);
    let (scheme, path) = (u.scheme().to_string(), u.path().to_string());
    Ok((scheme, owned(u.host_str()), u.port(), path, owned(u.query()), owned(u.fragment())))
}

/// The views of a URL's parts.
pub open spec fn parts_view(
    p: (String, Option<String>, Option<u16>, String, Option<String>, Option<String>),
) -> (Seq<char>, Option<Seq<char>>, Option<u16>, Seq<char>, Option<Seq<char>>, Option<Seq<char>>) {
    (p.0@, opt_view(p.1), p.2, p.3@, opt_view(p.4), opt_view(p.5))
}

/// The view of a URL with the given parts.
pub open spec fn url_view_of(
    p: (Seq<char>, Option<Seq<char>>, Option<u16>, Seq<char>, Option<Seq<char>>, Option<Seq<char>>),
) -> UrlView {
    UrlView { scheme: p.0, host: p.1, port: p.2, path: p.3, query: p.4, fragment: p.5 }
}

/// A URL split into its components. The port is absent when it is the
/// scheme's default one.
pub struct CacheUrl {
    pub scheme: String,
    pub host: Option<String>,
    pub port: Option<u16>,
    pub path: String,
    pub query: Option<String>,
    pub fragment: Option<String>,
}

/// The components of a URL as character sequences.
pub struct UrlView {
    pub scheme: Seq<char>,
    pub host: Option<Seq<char>>,
    pub port: Option<u16>,
    pub path: Seq<char>,
    pub query: Option<Seq<char>>,
    pub fragment: Option<Seq<char>>,
}

/// The view of an optional string.
pub open spec fn opt_view(o: Option<String>) -> Option<Seq<char>> {
    match o {
        Some(s) => Some(s@),
        None => None,
    }
}

impl View for CacheUrl {
    type V = UrlView;

    open spec fn view(&self) -> UrlView {
        UrlView {
            scheme: self.scheme@,
            host: opt_view(self.host),
            port: self.port,
            path: self.path@,
            query: opt_view(self.query),
            fragment: opt_view(self.fragment),
        }
    }
}

impl CacheUrl {
    /// Parses an absolute URL into its components.
    pub fn parse(s: &str) -> (r: Result<CacheUrl, CacheError>)
        ensures
            parsed_url(s@) is None ==> r == Err::<CacheUrl, CacheError>(CacheError::InvalidUrl),
            parsed_url(s@) is Some ==> r is Ok && r->Ok_0@ == url_view_of(parsed_url(s@)->0),
            r is Ok && (r->Ok_0.scheme@ == "http"@ || r->Ok_0.scheme@ == "https"@) ==> r->Ok_0.host
                is Some,
    {
        match parse_parts(s) {
            Ok(p) => Ok(
                CacheUrl { scheme: p.0, host: p.1, port: p.2, path: p.3, query: p.4, fragment: p.5 },
            ),
            Err(_) => Err(CacheError::InvalidUrl),
        }
    }
}

} // verus!
