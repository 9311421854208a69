//! The response: a closed set of outcomes, each with one rendering on the
//! wire.

use crate::text::{decimal, push_decimal};
use crate::types::ServerErrors;
use vstd::prelude::*;
use vstd::string::StringExecFns;
use vstd::utf8::encode_utf8;

verus! {

/// What the server can answer.
#[derive(Debug, PartialEq, Eq)]
pub enum Response {
    /// `200 OK` without a body.
    StatusOk,
    /// `200 OK` with a plain-text body.
    Text(String),
    /// `404 Not Found`.
    NotFound,
    /// `400 Bad Request`.
    BadRequest,
    /// `500 Internal Server Error`.
    ServerError,
    /// `200 OK` with a body of file contents.
    OctetStream(String),
    /// `201 Created`.
    Created,
}

/// A response, as plain values.
pub ghost enum ResponseView {
    StatusOk,
    Text(Seq<char>),
    NotFound,
    BadRequest,
    ServerError,
    OctetStream(Seq<char>),
    Created,
}

impl View for Response {
    type V = ResponseView;

    open spec fn view(&self) -> ResponseView {
        match self {
            Response::StatusOk => ResponseView::StatusOk,
            Response::Text(text) => ResponseView::Text(text@),
            Response::NotFound => ResponseView::NotFound,
            Response::BadRequest => ResponseView::BadRequest,
            Response::ServerError => ResponseView::ServerError,
            Response::OctetStream(data) => ResponseView::OctetStream(data@),
            Response::Created => ResponseView::Created,
        }
    }
}

/// The wire text of a `200 OK` response that carries `body`: the head (status
/// line and content type, up to the length), the number of bytes that `body`
/// takes in UTF-8, a blank line, the body, and a closing line break.
pub open spec fn render_with_body(head: Seq<char>, body: Seq<char>) -> Seq<char> {
    head + decimal(encode_utf8(body).len()) + "\r\n\r\n"@ + body + "\r\n"@
}

/// The wire text of a response.
pub open spec fn render(response: ResponseView) -> Seq<char> {
    match response {
        ResponseView::StatusOk => "HTTP/1.1 200 OK\r\n\r\n"@,
        ResponseView::Text(text) => render_with_body(
            "HTTP/1.1 200 OK\r\nContent-Type: text/plain\r\nContent-Length: "@,
            text,
        ),
        ResponseView::NotFound => "HTTP/1.1 404 Not Found\r\n\r\n"@,
        ResponseView::BadRequest => "HTTP/1.1 400 Bad Request\r\n\r\n"@,
        ResponseView::ServerError => "HTTP/1.1 500 Internal Server Error\r\n\r\n"@,
        ResponseView::OctetStream(data) => render_with_body(
            "HTTP/1.1 200 OK\r\nContent-Type: application/octet-stream\r\nContent-Length: "@,
            data,
        ),
        ResponseView::Created => "HTTP/1.1 201 Created\r\n\r\n"@,
    }
}

/// The response that reports an error.
pub open spec fn error_response(err: ServerErrors) -> ResponseView {
    match err {
        ServerErrors::InternalServerError => ResponseView::ServerError,
        ServerErrors::UrlNotFound => ResponseView::NotFound,
        ServerErrors::BadRequest => ResponseView::BadRequest,
        ServerErrors::ObjectNotFound => ResponseView::NotFound,
    }
}

/// Writes a response that carries `body` after the given head.
fn with_body(head: &str, body: &String) -> (wire: String)
    ensures
        wire@ == render_with_body(head@, body@),
{
    let mut wire = head.to_owned();
    push_decimal(&mut wire, body.as_str().as_bytes().len());
    wire.append("\r\n\r\n");
    wire.append(body.as_str());
    wire.append("\r\n");
    assert(wire@ =~= render_with_body(head@, body@));
    wire
}

impl Response {
    /// Renders the response as it goes on the wire. Every response renders.
    pub fn get_string(&self) -> (wire: String)
        ensures
            wire@ == render(self@),
    {
        match self {
            Response::StatusOk => "HTTP/1.1 200 OK\r\n\r\n".to_owned(),
            Response::Text(text) => with_body(
                "HTTP/1.1 200 OK\r\nContent-Type: text/plain\r\nContent-Length: ",
                text,
            ),
            Response::NotFound => "HTTP/1.1 404 Not Found\r\n\r\n".to_owned(),
            Response::BadRequest => "HTTP/1.1 400 Bad Request\r\n\r\n".to_owned(),
            Response::ServerError => "HTTP/1.1 500 Internal Server Error\r\n\r\n".to_owned(),
            Response::OctetStream(data) => with_body(
                "HTTP/1.1 200 OK\r\nContent-Type: application/octet-stream\r\nContent-Length: ",
                data,
            ),
            Response::Created => "HTTP/1.1 201 Created\r\n\r\n".to_owned(),
        }
    }

    /// The response that reports `err`.
    pub fn from_error(err: ServerErrors) -> (response: Self)
        ensures
            response@ == error_response(err),
    {
        match err {
            ServerErrors::InternalServerError => Response::ServerError,
            ServerErrors::UrlNotFound => Response::NotFound,
            ServerErrors::BadRequest => Response::BadRequest,
            ServerErrors::ObjectNotFound => Response::NotFound,
        }
    }
}

} // verus!
