//! A filesystem-backed HTTP cache: each URL is mapped to a deterministic
//! relative path, under which the response body and its headers are kept.

pub mod text;
pub mod checksum;
pub mod error;
pub mod cache_url;
pub mod naming;
pub mod headers;
pub mod store;
