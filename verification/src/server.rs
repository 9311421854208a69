//! Dispatch: from a request to the decision of the handler that its method
//! and path select, and from a result to the text sent back.

use crate::api::{
    completed, echo, file_get, file_get_action, file_location, file_post, file_post_action, home,
    result_view, root_view, user_agent, user_agent_reply, Action, ActionView, FileOutcomeView,
};
use crate::request::{
    assemble, declared_length, extra_path, first_line, method_of, parse_headers, Headers,
    HeadersView, Method, Request, RequestView,
};
use crate::response::{error_response, render, render_with_body, Response, ResponseView};
use crate::routes::{lemma_first_match_wins, production_table, resolve, RouteView, Routes};
use crate::text::{has_char, lemma_position, lemma_position_is, position};
use crate::types::{ServerErrors, ServerFunction, ServerResult};
use vstd::prelude::*;

verus! {

/// What a handler decides for a request.
pub open spec fn handle(
    function: ServerFunction,
    req: RequestView,
    directory: Option<Seq<char>>,
) -> ActionView {
    match function {
        ServerFunction::Home => ActionView::Reply(Ok(ResponseView::StatusOk)),
        ServerFunction::Echo => ActionView::Reply(Ok(ResponseView::Text(extra_path(req.path)))),
        ServerFunction::UserAgent => ActionView::Reply(user_agent_reply(req.headers)),
        ServerFunction::FileGet => file_get_action(req, directory),
        ServerFunction::FilePost => file_post_action(req, directory),
    }
}

/// What the server decides for a request: the decision of the handler that
/// the table resolves its path and method to, and `UrlNotFound` when the
/// table resolves them to none.
pub open spec fn route(table: Seq<RouteView>, req: RequestView, directory: Option<Seq<char>>)
    -> ActionView {
    match resolve(table, req.path, req.method) {
        Some(function) => handle(function, req, directory),
        None => ActionView::Reply(Err(ServerErrors::UrlNotFound)),
    }
}

/// What the server decides for the text of a request: a header block and the
/// body bytes read after it. A request that cannot be parsed is answered with
/// the error that stopped it.
pub open spec fn serve(
    table: Seq<RouteView>,
    data: Seq<char>,
    body: Seq<u8>,
    directory: Option<Seq<char>>,
) -> ActionView {
    match parse_headers(data) {
        Err(e) => ActionView::Reply(Err(e)),
        Ok(headers) => match assemble(headers, body) {
            Err(e) => ActionView::Reply(Err(e)),
            Ok(req) => route(table, req, directory),
        },
    }
}

/// The text sent back for a result: the rendering of the response, or of the
/// response that reports the error.
pub open spec fn wire(result: Result<ResponseView, ServerErrors>) -> Seq<char> {
    match result {
        Ok(response) => render(response),
        Err(e) => render(error_response(e)),
    }
}

impl ServerFunction {
    /// Runs the handler on a request.
    pub fn call(self, req: Request, directory: Option<&str>) -> (action: Action)
        ensures
            action@ == handle(self, req@, root_view(directory)),
    {
        match self {
            ServerFunction::Home => Action::Reply(home(req)),
            ServerFunction::Echo => Action::Reply(echo(req)),
            ServerFunction::UserAgent => Action::Reply(user_agent(req)),
            ServerFunction::FileGet => file_get(req, directory),
            ServerFunction::FilePost => file_post(req, directory),
        }
    }
}

/// Resolves a request against the table and runs the handler found.
pub fn route_request(routes: &Routes, req: Request, directory: Option<&str>) -> (action: Action)
    ensures
        action@ == route(routes@, req@, root_view(directory)),
{
    let path = req.get_path_str();
    let method = req.get_method();
    match routes.get_api_function(path, method) {
        Some(function) => function.call(req, directory),
        None => Action::Reply(Err(ServerErrors::UrlNotFound)),
    }
}

/// Parses the text of a request and decides what to do for it.
pub fn dispatch(routes: &Routes, data: String, body: Vec<u8>, directory: Option<&str>) -> (action:
    Action)
    ensures
        action@ == serve(routes@, data@, body@, root_view(directory)),
{
    let headers = match Headers::new(data) {
        Ok(headers) => headers,
        Err(e) => {
            return Action::Reply(Err(e));
        },
    };
    match Request::from_parts(headers, body) {
        Ok(req) => route_request(routes, req, directory),
        Err(e) => Action::Reply(Err(e)),
    }
}

/// The text to send back for a result.
pub fn reply(result: ServerResult<Response>) -> (text: String)
    ensures
        text@ == wire(result_view(result)),
{
    match result {
        Ok(response) => response.get_string(),
        Err(e) => Response::from_error(e).get_string(),
    }
}

/// A request line of the usual shape is read as it was meant: when the text
/// begins with a method token, a space, a path that holds neither a space nor
/// a line feed, and a space, the parser finds that method and that path,
/// whatever follows.
pub proof fn lemma_request_line(
    token: Seq<char>,
    method: Method,
    path: Seq<char>,
    tail: Seq<char>,
)
    requires
        method_of(token) == Some(method),
        !has_char(path, ' '),
        !has_char(path, '\n'),
    ensures
        ({
            let data = token + seq![' '] + path + seq![' '] + tail;
            parse_headers(data) matches Ok(headers) && headers.method == method && headers.path
                == path
        }),
{
    reveal_strlit("GET");
    reveal_strlit("POST");
    let head = token + seq![' '] + path + seq![' '];
    let data = head + tail;
    let tl = token.len() as int;
    let pl = path.len() as int;
    let hl = head.len() as int;
    lemma_position(path, ' ');
    lemma_position(path, '\n');
    assert forall|i: int| 0 <= i < hl implies head[i] != '\n' by {
        if i < tl {
            assert(head[i] == token[i]);
        } else if tl < i < tl + 1 + pl {
            assert(head[i] == path[i - tl - 1]);
        }
    }
    lemma_position(data, '\n');
    let k = position(data, '\n');
    if k < hl {
        assert(data[k] == head[k]);
    }
    let line = first_line(data);
    assert(line.len() >= hl) by {
        if 0 < k < data.len() && data[k - 1] == '\r' {
            if k - 1 < hl {
                assert(data[k - 1] == head[k - 1]);
                if k - 1 < tl {
                    assert(head[k - 1] == token[k - 1]);
                } else if tl < k - 1 < tl + 1 + pl {
                    assert(head[k - 1] == path[k - 1 - tl - 1]);
                }
            }
        }
    }
    assert forall|i: int| 0 <= i < hl implies line[i] == head[i] by {
        assert(line[i] == data[i]);
    }
    assert forall|i: int| 0 <= i < tl implies line[i] != ' ' by {
        assert(line[i] == head[i]);
        assert(head[i] == token[i]);
    }
    assert(line[tl] == ' ') by {
        assert(line[tl] == head[tl]);
    }
    lemma_position_is(line, ' ', tl);
    assert(line.subrange(0, tl) =~= token) by {
        assert forall|i: int| 0 <= i < tl implies line.subrange(0, tl)[i] == token[i] by {
            assert(line[i] == head[i]);
        }
    }
    let rest = line.subrange(tl + 1, line.len() as int);
    assert forall|i: int| 0 <= i < pl implies rest[i] == path[i] by {
        assert(rest[i] == line[tl + 1 + i]);
        assert(line[tl + 1 + i] == head[tl + 1 + i]);
    }
    assert(rest[pl] == ' ') by {
        assert(rest[pl] == line[tl + 1 + pl]);
        assert(line[tl + 1 + pl] == head[tl + 1 + pl]);
    }
    lemma_position_is(rest, ' ', pl);
    assert(rest.subrange(0, pl) =~= path);
}

/// A request line with fewer than two space-separated tokens is a bad
/// request, whatever the route table, the headers and the body; the text
/// sent back is the `400` status line alone.
pub proof fn lemma_short_request_line(
    table: Seq<RouteView>,
    data: Seq<char>,
    body: Seq<u8>,
    directory: Option<Seq<char>>,
)
    requires
        !has_char(first_line(data), ' '),
    ensures
        parse_headers(data) == Err::<HeadersView, ServerErrors>(ServerErrors::BadRequest),
        serve(table, data, body, directory) == ActionView::Reply(Err(ServerErrors::BadRequest)),
        wire(Err(ServerErrors::BadRequest)) == "HTTP/1.1 400 Bad Request\r\n\r\n"@,
{
}

/// A body that does not hold exactly the declared number of bytes is an
/// internal error, not a bad request; the text sent back is the `500` status
/// line alone.
pub proof fn lemma_body_length_mismatch(
    table: Seq<RouteView>,
    data: Seq<char>,
    body: Seq<u8>,
    directory: Option<Seq<char>>,
)
    requires
        parse_headers(data) matches Ok(headers) && declared_length(headers.headers) matches Ok(n)
            && body.len() != n,
    ensures
        serve(table, data, body, directory) == ActionView::Reply(
            Err(ServerErrors::InternalServerError),
        ),
        wire(Err(ServerErrors::InternalServerError))
            == "HTTP/1.1 500 Internal Server Error\r\n\r\n"@,
{
}

/// With the production table, `GET /` is answered `200 OK` without a body,
/// whatever headers and body the request carries.
pub proof fn lemma_home(req: RequestView, directory: Option<Seq<char>>)
    requires
        req.method == Method::Get,
        req.path == "/"@,
    ensures
        route(production_table(), req, directory) == ActionView::Reply(Ok(ResponseView::StatusOk)),
        wire(Ok(ResponseView::StatusOk)) == "HTTP/1.1 200 OK\r\n\r\n"@,
{
    lemma_first_match_wins(production_table(), req.path, req.method, 0);
}

/// With the production table, `GET /echo/<s>` is answered with `<s>` as plain
/// text: status `200`, content type `text/plain`, the length of `<s>` in
/// bytes, and `<s>` itself as the body. Only the first segment is taken off
/// the path, so `<s>` may hold `/`.
pub proof fn lemma_echo(req: RequestView, s: Seq<char>, directory: Option<Seq<char>>)
    requires
        req.method == Method::Get,
        req.path == "/echo/"@ + s,
    ensures
        route(production_table(), req, directory) == ActionView::Reply(Ok(ResponseView::Text(s))),
        wire(Ok(ResponseView::Text(s))) == render_with_body(
            "HTTP/1.1 200 OK\r\nContent-Type: text/plain\r\nContent-Length: "@,
            s,
        ),
{
    reveal_strlit("/");
    reveal_strlit("/echo");
    reveal_strlit("/echo/");
    let table = production_table();
    let path = req.path;
    assert("/echo"@.is_prefix_of(path)) by {
        assert(path.subrange(0, 5) =~= "/echo"@);
    }
    lemma_first_match_wins(table, path, req.method, 1);
    let rest = path.drop_first();
    lemma_position_is(rest, '/', 4);
    assert(rest.subrange(5, rest.len() as int) =~= s);
}

/// With the production table, `GET /user-agent` is answered with the value
/// of the `User-Agent` header as plain text, and is a bad request when the
/// request has no such header.
pub proof fn lemma_user_agent(req: RequestView, directory: Option<Seq<char>>)
    requires
        req.method == Method::Get,
        req.path == "/user-agent"@,
    ensures
        route(production_table(), req, directory) == ActionView::Reply(
            user_agent_reply(req.headers),
        ),
        !req.headers.contains_key("User-Agent"@) ==> wire(user_agent_reply(req.headers))
            == "HTTP/1.1 400 Bad Request\r\n\r\n"@,
{
    reveal_strlit("/");
    reveal_strlit("/echo");
    reveal_strlit("/user-agent");
    let table = production_table();
    assert(!"/echo"@.is_prefix_of(req.path)) by {
        if "/echo"@.is_prefix_of(req.path) {
            assert(req.path.subrange(0, 5)[1] == "/echo"@[1]);
        }
    }
    lemma_first_match_wins(table, req.path, req.method, 2);
}

/// With the production table, a file stored is the file served: for one
/// server root and one path below `/files`, `POST` asks for the request body
/// to be written, as it is, to the very location that `GET` asks to be read.
/// Once written, the `POST` is answered `201 Created`; and when the read
/// finds those contents, the `GET` is answered with them unchanged.
pub proof fn lemma_file_round_trip(
    post: RequestView,
    get: RequestView,
    directory: Seq<char>,
)
    requires
        post.method == Method::Post,
        get.method == Method::Get,
        post.path == get.path,
        "/files"@.is_prefix_of(get.path),
    ensures
        ({
            let location = file_location(directory, get.path);
            let write = route(production_table(), post, Some(directory));
            let read = route(production_table(), get, Some(directory));
            &&& write == ActionView::WriteFile(location, post.body)
            &&& read == ActionView::ReadFile(location)
            &&& completed(write, FileOutcomeView::Written) == Ok::<ResponseView, ServerErrors>(
                ResponseView::Created,
            )
            &&& completed(read, FileOutcomeView::Contents(post.body)) == Ok::<
                ResponseView,
                ServerErrors,
            >(ResponseView::OctetStream(post.body))
        }),
{
    reveal_strlit("/");
    reveal_strlit("/echo");
    reveal_strlit("/user-agent");
    reveal_strlit("/files");
    let table = production_table();
    let path = get.path;
    assert(path.subrange(0, 6) == "/files"@);
    assert(path[1] == 'f') by {
        assert(path.subrange(0, 6)[1] == "/files"@[1]);
    }
    assert(!"/echo"@.is_prefix_of(path)) by {
        if "/echo"@.is_prefix_of(path) {
            assert(path.subrange(0, 5)[1] == "/echo"@[1]);
        }
    }
    assert(path != "/user-agent"@) by {
        assert("/user-agent"@[1] == 'u');
    }
    lemma_first_match_wins(table, path, Method::Get, 3);
    lemma_first_match_wins(table, path, Method::Post, 4);
}

/// With the production table, a file that cannot be read is not found: the
/// `GET` below `/files` is answered with the `404` status line alone.
pub proof fn lemma_file_missing(get: RequestView, directory: Seq<char>)
    requires
        get.method == Method::Get,
        "/files"@.is_prefix_of(get.path),
    ensures
        ({
            let read = route(production_table(), get, Some(directory));
            &&& completed(read, FileOutcomeView::Failed) == Err::<ResponseView, ServerErrors>(
                ServerErrors::ObjectNotFound,
            )
            &&& wire(completed(read, FileOutcomeView::Failed))
                == "HTTP/1.1 404 Not Found\r\n\r\n"@
        }),
{
    let post = RequestView { method: Method::Post, ..get };
    lemma_file_round_trip(post, get, directory);
}

/// On the wire: a request that begins `GET /echo/<s> `, where `<s>` holds
/// neither a space nor a line feed, is answered with `<s>` as plain text,
/// provided its headers and body make a request at all.
pub proof fn lemma_echo_on_the_wire(
    s: Seq<char>,
    tail: Seq<char>,
    body: Seq<u8>,
    directory: Option<Seq<char>>,
)
    requires
        !has_char(s, ' '),
        !has_char(s, '\n'),
    ensures
        ({
            let data = "GET"@ + seq![' '] + ("/echo/"@ + s) + seq![' '] + tail;
            &&& parse_headers(data) matches Ok(headers) && (assemble(headers, body) is Ok ==> serve(
                production_table(),
                data,
                body,
                directory,
            ) == ActionView::Reply(Ok(ResponseView::Text(s))))
        }),
{
    reveal_strlit("/echo/");
    let path = "/echo/"@ + s;
    lemma_position(s, ' ');
    lemma_position(s, '\n');
    lemma_position(path, ' ');
    lemma_position(path, '\n');
    if has_char(path, ' ') {
        let i = position(path, ' ');
        if i >= 6 {
            assert(path[i] == s[i - 6]);
        }
    }
    if has_char(path, '\n') {
        let i = position(path, '\n');
        if i >= 6 {
            assert(path[i] == s[i - 6]);
        }
    }
    lemma_request_line("GET"@, Method::Get, path, tail);
    let data = "GET"@ + seq![' '] + path + seq![' '] + tail;
    let headers = parse_headers(data)->Ok_0;
    if assemble(headers, body) is Ok {
        lemma_echo(assemble(headers, body)->Ok_0, s, directory);
    }
}

/// On the wire: a request that begins `GET / ` is answered `200 OK` without a
/// body, whatever its headers and body, provided they make a request at all.
pub proof fn lemma_home_on_the_wire(tail: Seq<char>, body: Seq<u8>, directory: Option<Seq<char>>)
    ensures
        ({
            let data = "GET"@ + seq![' '] + "/"@ + seq![' '] + tail;
            &&& parse_headers(data) matches Ok(headers) && (assemble(headers, body) is Ok ==> serve(
                production_table(),
                data,
                body,
                directory,
            ) == ActionView::Reply(Ok(ResponseView::StatusOk)))
        }),
{
    reveal_strlit("/");
    let path = "/"@;
    lemma_position_is(path, ' ', 1);
    lemma_position_is(path, '\n', 1);
    lemma_request_line("GET"@, Method::Get, path, tail);
    let data = "GET"@ + seq![' '] + path + seq![' '] + tail;
    let headers = parse_headers(data)->Ok_0;
    if assemble(headers, body) is Ok {
        lemma_home(assemble(headers, body)->Ok_0, directory);
    }
}

} // verus!
