//! Wire codecs for an HTTP server: HTTP/2 frames and HTTP/1.1 requests and
//! responses, decoded into offsets over the receive buffer.

pub mod error;
pub mod http;
pub mod http2;
pub mod method;
pub mod router;
pub mod status;
pub mod text;
pub mod version;

pub use error::Error;
pub use http::response::{Body, Headers};
pub use http::{Request, Response};
pub use method::Method;
pub use router::builder::RouterBuilder;
pub use router::handlers::Handler;
pub use router::route::route::Route;
pub use router::Router;
pub use status::StatusCode;
pub use version::HttpVersion;

use vstd::prelude::*;

verus! {

/// The content type of a message.
pub type ContentType = String;

/// The length of the body of a message.
pub type ContentLength = u64;

} // verus!
