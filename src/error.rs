//! The ways a cache operation can fail.
use vstd::prelude::*;

verus! {

/// Why a cache operation failed.
#[derive(Debug, Clone, Copy, PartialEq, Eq, Structural)]
pub enum CacheError {
    /// The text given is not an absolute URL.
    InvalidUrl,
    /// The URL's scheme is neither `http` nor `https`.
    UnsupportedScheme,
    /// The URL has no host to name its cache directory after.
    MissingHost,
    /// The content file or the headers file of the entry does not exist.
    NotFound,
    /// The headers file is not a JSON object of strings.
    ParseError,
    /// The headers could not be encoded.
    SerializationError,
}

} // verus!
