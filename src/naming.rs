//! Derivation of a cache path from a URL: `<scheme>/<host>[_PORT<port>]/<digest>`,
//! where the digest is the SHA-256 of the path and query. The fragment is
//! never consulted.
use vstd::prelude::*;
use vstd::string::StringExecFns;
use crate::cache_url::{CacheUrl, UrlView};
use crate::checksum::{gen, sha256_of};
use crate::error::CacheError;
use crate::text::{decimal, decimal_of, hex_of};

verus! {

/// The schemes that have a cache layout.
pub open spec fn is_supported_scheme(scheme: Seq<char>) -> bool {
    scheme == "http"@ || scheme == "https"@
}

/// Why a URL has no cache path, if it has none.
pub open spec fn naming_error(u: UrlView) -> Option<CacheError> {
    if !is_supported_scheme(u.scheme) {
        Some(CacheError::UnsupportedScheme)
    } else if u.host is None {
        Some(CacheError::MissingHost)
    } else {
        None
    }
}

/// The port that a supported scheme uses when none is written.
pub open spec fn default_port(scheme: Seq<char>) -> u16 {
    if scheme == "https"@ {
        443
    } else {
        80
    }
}

/// The port to write in the host segment: one that is present and is not
/// the scheme's default.
pub open spec fn written_port(scheme: Seq<char>, port: Option<u16>) -> Option<u16> {
    match port {
        Some(p) => if p == default_port(scheme) {
            None
        } else {
            Some(p)
        },
        None => None,
    }
}

/// The directory named after the host: the host alone, or `<host>_PORT<port>`
/// when a port other than the default one is present.
pub open spec fn host_segment(host: Seq<char>, port: Option<u16>) -> Seq<char> {
    match port {
        Some(p) => host + "_PORT"@ + decimal_of(p as nat),
        None => host,
    }
}

/// `<scheme>/<host segment>`.
pub open spec fn base_name(u: UrlView) -> Seq<char> {
    u.scheme + "/"@ + host_segment(u.host->0, written_port(u.scheme, u.port))
}

/// The part of a URL that is hashed: the path, then `?` and the query if
/// there is one.
pub open spec fn rest_of(u: UrlView) -> Seq<char> {
    match u.query {
        Some(q) => u.path + "?"@ + q,
        None => u.path,
    }
}

/// The full relative cache path of a URL.
pub open spec fn cache_name(u: UrlView) -> Seq<char> {
    base_name(u) + "/"@ + hex_of(sha256_of(vstd::utf8::encode_utf8(rest_of(u))))
}

/// Turns the scheme, host and port of a URL into a relative directory path.
/// A port is written as `_PORT<port>`, since `:` is not allowed in file names
/// everywhere.
pub fn base_url_to_filename(url: &CacheUrl) -> (r: Result<String, CacheError>)
    ensures
        match naming_error(url@) {
            Some(e) => r == Err::<String, CacheError>(e),
            None => r is Ok && r->Ok_0@ == base_name(url@),
        },
{
    let http = String::from_str("http");
    let https = String::from_str("https");
    if !(url.scheme == http || url.scheme == https) {
        return Err(CacheError::UnsupportedScheme);
    }
    let host = match &url.host {
        Some(h) => h,
        None => {
            return Err(CacheError::MissingHost);
        },
    };
    let default: u16 = if url.scheme == https {
        443
    } else {
        80
    };
    let mut out = url.scheme.clone();
    out.append("/");
    out.append(host.as_str());
    match url.port {
        Some(p) if p != default => {
            out.append("_PORT");
            let d = decimal(p);
            out.append(d.as_str());
        },
        _ => {},
    }
    Ok(out)
}

/// Turns a URL into its relative cache path. The path and query are hashed,
/// since they may hold characters that file names cannot; the fragment is
/// left out.
pub fn url_to_filename(url: &CacheUrl) -> (r: Result<String, CacheError>)
    ensures
        match naming_error(url@) {
            Some(e) => r == Err::<String, CacheError>(e),
            None => r is Ok && r->Ok_0@ == cache_name(url@),
        },
{
    let mut out = match base_url_to_filename(url) {
        Ok(b) => b,
        Err(e) => {
            return Err(e);
        },
    };
    let mut rest = url.path.clone();
    match &url.query {
        Some(q) => {
            rest.append("?");
            rest.append(q.as_str());
        },
        None => {},
    }
    let hashed = gen(rest.as_str().as_bytes());
    out.append("/");
    out.append(hashed.as_str());
    Ok(out)
}

/// Two URLs that differ only in their fragment have the same cache path,
/// and fail to have one in the same way.
pub proof fn lemma_fragment_ignored(a: UrlView, b: UrlView)
    requires
        (UrlView { fragment: b.fragment, ..a }) == b,
    ensures
        naming_error(a) == naming_error(b),
        cache_name(a) == cache_name(b),
{
}

/// The host segment is `<host>_PORT<port>` when a port other than the
/// scheme's default is present, and the host alone when the port is absent
/// or is the default one.
pub proof fn lemma_host_segment(u: UrlView)
    requires
        naming_error(u) is None,
    ensures
        u.port is Some && u.port->0 != default_port(u.scheme) ==> base_name(u) == u.scheme + "/"@
            + u.host->0 + "_PORT"@ + decimal_of(u.port->0 as nat),
        u.port is None || u.port->0 == default_port(u.scheme) ==> base_name(u) == u.scheme + "/"@
            + u.host->0,
{
}

/// The cache path depends on the URL's components alone: equal URLs give
/// equal paths, on every call.
pub proof fn lemma_name_deterministic(a: UrlView, b: UrlView)
    requires
        a == b,
    ensures
        naming_error(a) == naming_error(b),
        cache_name(a) == cache_name(b),
        base_name(a) == base_name(b),
{
}

} // verus!
