//! The route handlers.
//!
//! A handler either answers at once or names the one file operation it needs
//! before it can answer. The caller performs that operation and reports how
//! it went to [`complete`].

use crate::request::{extra_path, Request, RequestView};
use crate::response::{Response, ResponseView};
use crate::types::{ServerErrors, ServerResult};
use vstd::prelude::*;
use vstd::string::StringExecFns;

verus! {

/// A handler's result, as plain values.
pub open spec fn result_view(r: ServerResult<Response>) -> Result<ResponseView, ServerErrors> {
    match r {
        Ok(response) => Ok(response@),
        Err(e) => Err(e),
    }
}

/// The server root as plain values, if one was supplied.
pub open spec fn root_view(directory: Option<&str>) -> Option<Seq<char>> {
    match directory {
        Some(d) => Some(d@),
        None => None,
    }
}

/// What a handler has decided.
#[derive(Debug, PartialEq, Eq)]
pub enum Action {
    /// The answer is known.
    Reply(ServerResult<Response>),
    /// The file at this location is to be read.
    ReadFile(String),
    /// The file at this location is to be created or truncated, and these
    /// contents written to it.
    WriteFile(String, String),
}

/// A decision, as plain values.
pub ghost enum ActionView {
    Reply(Result<ResponseView, ServerErrors>),
    ReadFile(Seq<char>),
    WriteFile(Seq<char>, Seq<char>),
}

impl View for Action {
    type V = ActionView;

    open spec fn view(&self) -> ActionView {
        match self {
            Action::Reply(r) => ActionView::Reply(result_view(*r)),
            Action::ReadFile(location) => ActionView::ReadFile(location@),
            Action::WriteFile(location, contents) => ActionView::WriteFile(location@, contents@),
        }
    }
}

/// How a file operation went.
#[derive(Debug, PartialEq, Eq)]
pub enum FileOutcome {
    /// The file was read and held these contents.
    Contents(String),
    /// The file was written.
    Written,
    /// The operation failed, or the file does not exist.
    Failed,
}

/// The outcome of a file operation, as plain values.
pub ghost enum FileOutcomeView {
    Contents(Seq<char>),
    Written,
    Failed,
}

impl View for FileOutcome {
    type V = FileOutcomeView;

    open spec fn view(&self) -> FileOutcomeView {
        match self {
            FileOutcome::Contents(contents) => FileOutcomeView::Contents(contents@),
            FileOutcome::Written => FileOutcomeView::Written,
            FileOutcome::Failed => FileOutcomeView::Failed,
        }
    }
}

/// What the `User-Agent` handler answers: the value of the `User-Agent` field
/// (the name is matched exactly), or a bad request when there is none.
pub open spec fn user_agent_reply(headers: Map<Seq<char>, Seq<char>>) -> Result<
    ResponseView,
    ServerErrors,
> {
    if headers.contains_key("User-Agent"@) {
        Ok(ResponseView::Text(headers["User-Agent"@]))
    } else {
        Err(ServerErrors::BadRequest)
    }
}

/// Where the file of a request lives: the server root, a `/`, and the part of
/// the request path after its first segment. Nothing is removed from that
/// part, so a path that holds `..` can name a file outside the root.
pub open spec fn file_location(directory: Seq<char>, path: Seq<char>) -> Seq<char> {
    directory + "/"@ + extra_path(path)
}

/// What the file-reading handler decides: to read the request's file, or a
/// bad request when no server root was supplied.
pub open spec fn file_get_action(req: RequestView, directory: Option<Seq<char>>) -> ActionView {
    match directory {
        Some(d) => ActionView::ReadFile(file_location(d, req.path)),
        None => ActionView::Reply(Err(ServerErrors::BadRequest)),
    }
}

/// What the file-writing handler decides: to write the request body, as it
/// is, to the request's file, or a bad request when no server root was
/// supplied.
pub open spec fn file_post_action(req: RequestView, directory: Option<Seq<char>>) -> ActionView {
    match directory {
        Some(d) => ActionView::WriteFile(file_location(d, req.path), req.body),
        None => ActionView::Reply(Err(ServerErrors::BadRequest)),
    }
}

/// The answer once the file operation of a decision has been carried out.
///
/// A reply stands as it is. A read answers with the contents found, and with
/// `ObjectNotFound` after anything else. A write answers `Created` once
/// written, and with `InternalServerError` after anything else.
pub open spec fn completed(action: ActionView, outcome: FileOutcomeView) -> Result<
    ResponseView,
    ServerErrors,
> {
    match action {
        ActionView::Reply(r) => r,
        ActionView::ReadFile(_) => match outcome {
            FileOutcomeView::Contents(contents) => Ok(ResponseView::OctetStream(contents)),
            _ => Err(ServerErrors::ObjectNotFound),
        },
        ActionView::WriteFile(_, _) => match outcome {
            FileOutcomeView::Written => Ok(ResponseView::Created),
            _ => Err(ServerErrors::InternalServerError),
        },
    }
}

/// Answers `200 OK` without looking at the request.
pub fn home(_req: Request) -> (r: ServerResult<Response>)
    ensures
        result_view(r) == Ok::<ResponseView, ServerErrors>(ResponseView::StatusOk),
{
    Ok(Response::StatusOk)
}

/// Answers with the part of the path after its first segment, as plain text.
pub fn echo(req: Request) -> (r: ServerResult<Response>)
    ensures
        result_view(r) == Ok::<ResponseView, ServerErrors>(
            ResponseView::Text(extra_path(req@.path)),
        ),
{
    let echo_string = req.get_extra_path();
    Ok(Response::Text(echo_string))
}

/// Answers with the value of the `User-Agent` header, as plain text; a
/// request without that header is a bad request.
pub fn user_agent(req: Request) -> (r: ServerResult<Response>)
    ensures
        result_view(r) == user_agent_reply(req@.headers),
{
    let headers = req.get_headers();
    match headers.get("User-Agent") {
        Some(value) => Ok(Response::Text(value.clone())),
        None => Err(ServerErrors::BadRequest),
    }
}

/// The location of the request's file below `directory`.
fn locate(directory: &str, req: &Request) -> (location: String)
    ensures
        location@ == file_location(directory@, req@.path),
{
    let mut location = directory.to_owned();
    location.append("/");
    let file_name = req.get_extra_path();
    location.append(file_name.as_str());
    location
}

/// Decides how to serve a file: by reading it, once a server root is known.
pub fn file_get(req: Request, directory: Option<&str>) -> (action: Action)
    ensures
        action@ == file_get_action(req@, root_view(directory)),
{
    match directory {
        Some(d) => Action::ReadFile(locate(d, &req)),
        None => Action::Reply(Err(ServerErrors::BadRequest)),
    }
}

/// Decides how to store a file: by writing the request body, once a server
/// root is known.
pub fn file_post(req: Request, directory: Option<&str>) -> (action: Action)
    ensures
        action@ == file_post_action(req@, root_view(directory)),
{
    match directory {
        Some(d) => {
            let location = locate(d, &req);
            Action::WriteFile(location, req.get_body())
        },
        None => Action::Reply(Err(ServerErrors::BadRequest)),
    }
}

/// Turns a decision and the outcome of its file operation into the answer.
pub fn complete(action: Action, outcome: FileOutcome) -> (r: ServerResult<Response>)
    ensures
        result_view(r) == completed(action@, outcome@),
{
    match action {
        Action::Reply(r) => r,
        Action::ReadFile(_) => match outcome {
            FileOutcome::Contents(contents) => Ok(Response::OctetStream(contents)),
            _ => Err(ServerErrors::ObjectNotFound),
        },
        Action::WriteFile(_, _) => match outcome {
            FileOutcome::Written => Ok(Response::Created),
            _ => Err(ServerErrors::InternalServerError),
        },
    }
}

} // verus!
