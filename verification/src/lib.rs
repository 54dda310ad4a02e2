//! Mirrors the external dependencies of a lock file — registry packages and
//! pinned git repositories — into a content-addressed store, behind a stable
//! identity model: equal sources get equal storage keys however their URLs
//! were spelled.

use vstd::prelude::*;
use vstd::string::*;

pub mod giturl;
pub mod krate;
pub mod laws;
pub mod lock;
pub mod mirror;
pub mod text;

verus! {

/// What can go wrong: per-entry input faults and collaborator failures.
#[derive(Debug)]
pub enum MirrorError {
    /// A source string that the URL parser rejects.
    InvalidUrl,
    /// A git URL whose query carries no `rev` parameter.
    MissingRevision,
    /// A `rev` value shorter than seven characters.
    ShortRevision,
    /// A git URL without a host.
    MissingHost,
    /// A storage backend call failed; the text is the backend's account.
    Backend(String),
    /// A fetch call failed; the text is the fetcher's account.
    Fetch(String),
}

impl MirrorError {
    /// A short account of the error.
    pub fn describe(&self) -> (r: String)
        ensures
            match self {
                MirrorError::InvalidUrl => r@ == "malformed url"@,
                MirrorError::MissingRevision => r@ == "url doesn't contain a revision specifier"@,
                MirrorError::ShortRevision => r@ == "revision specifier is too short"@,
                MirrorError::MissingHost => r@ == "url doesn't contain a host"@,
                MirrorError::Backend(m) => r@ == "backend error: "@ + m@,
                MirrorError::Fetch(m) => r@ == "fetch error: "@ + m@,
            },
    {
        match self {
            MirrorError::InvalidUrl => String::from_str("malformed url"),
            MirrorError::MissingRevision => String::from_str(
                "url doesn't contain a revision specifier",
            ),
            MirrorError::ShortRevision => String::from_str("revision specifier is too short"),
            MirrorError::MissingHost => String::from_str("url doesn't contain a host"),
            MirrorError::Backend(m) => String::from_str("backend error: ").concat(m.as_str()),
            MirrorError::Fetch(m) => String::from_str("fetch error: ").concat(m.as_str()),
        }
    }
}

} // verus!
