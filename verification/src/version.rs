//! The versions of HTTP.

use vstd::prelude::*;

verus! {

/// A version of HTTP, in the order in which they came.
#[derive(PartialEq, PartialOrd, Copy, Clone, Eq, Ord, Hash, Debug, Structural)]
pub enum HttpVersion {
    /// `HTTP/0.9`
    Http09,
    /// `HTTP/1.0`
    Http10,
    /// `HTTP/1.1`
    Http11,
    /// `HTTP/2.0` over TLS
    H2,
    /// `HTTP/2.0` over cleartext
    H2c,
}

/// The name of a version, as it is written.
pub open spec fn version_name(version: HttpVersion) -> Seq<char> {
    match version {
        HttpVersion::Http09 => "HTTP/0.9"@,
        HttpVersion::Http10 => "HTTP/1.0"@,
        HttpVersion::Http11 => "HTTP/1.1"@,
        HttpVersion::H2 => "h2"@,
        HttpVersion::H2c => "h2c"@,
    }
}

impl HttpVersion {
    /// The name of the version, as it is written.
    pub fn as_str(&self) -> (name: &'static str)
        ensures
            name@ == version_name(*self),
    {
        match *self {
            HttpVersion::Http09 => "HTTP/0.9",
            HttpVersion::Http10 => "HTTP/1.0",
            HttpVersion::Http11 => "HTTP/1.1",
            HttpVersion::H2 => "h2",
            HttpVersion::H2c => "h2c",
        }
    }
}

impl Default for HttpVersion {
    fn default() -> (version: HttpVersion)
        ensures
            version == HttpVersion::Http11,
    {
        HttpVersion::Http11
    }
}

} // verus!
