//! Error kinds shared by every stage of the pipeline.

use vstd::prelude::*;

verus! {

/// Why a request could not be answered with a success.
#[derive(Clone, Copy, Debug, PartialEq, Eq, Structural)]
pub enum ServerErrors {
    /// An I/O failure, undecodable body, or a body shorter than declared.
    InternalServerError,
    /// No route matches the method and path.
    UrlNotFound,
    /// Malformed request line, unparseable `Content-Length`, or a missing
    /// required header.
    BadRequest,
    /// The requested file does not exist.
    ObjectNotFound,
}

pub type ServerResult<T> = Result<T, ServerErrors>;

/// The handlers a route can name. A route table stores one of these per route
/// and the server dispatches on it.
#[derive(Clone, Copy, Debug, PartialEq, Eq, Structural)]
pub enum ServerFunction {
    /// Answers `200 OK` with no body.
    Home,
    /// Answers with the tail of the request path.
    Echo,
    /// Answers with the value of the `User-Agent` header.
    UserAgent,
    /// Answers with the contents of a file below the server root.
    FileGet,
    /// Stores the request body in a file below the server root.
    FilePost,
}

} // verus!
