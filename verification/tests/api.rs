use http_server::api::{complete, echo, file_get, file_post, home, user_agent, Action, FileOutcome};
use http_server::request::{Headers, Request};
use http_server::response::Response;
use http_server::types::ServerErrors;

fn req(data: &str, body: &[u8]) -> Request {
    Request::from_parts(Headers::new(data.to_string()).unwrap(), body.to_vec()).unwrap()
}

#[test]
fn home_answers_ok_whatever_the_request() {
    assert_eq!(home(req("GET / HTTP/1.1\r\n\r\n", b"")), Ok(Response::StatusOk));
    assert_eq!(
        home(req("POST /other HTTP/1.1\r\nX: y\r\nContent-Length: 3\r\n\r\n", b"abc")),
        Ok(Response::StatusOk)
    );
}

#[test]
fn echo_answers_with_the_rest_of_the_path() {
    assert_eq!(
        echo(req("GET /echo/abc HTTP/1.1\r\n\r\n", b"")),
        Ok(Response::Text("abc".to_string()))
    );
    assert_eq!(
        echo(req("GET /echo/a/b HTTP/1.1\r\n\r\n", b"")),
        Ok(Response::Text("a/b".to_string()))
    );
    assert_eq!(echo(req("GET /echo HTTP/1.1\r\n\r\n", b"")), Ok(Response::Text(String::new())));
}

#[test]
fn user_agent_answers_with_the_header() {
    assert_eq!(
        user_agent(req("GET /user-agent HTTP/1.1\r\nUser-Agent: foo/1.0\r\n\r\n", b"")),
        Ok(Response::Text("foo/1.0".to_string()))
    );
}

#[test]
fn user_agent_without_the_header_is_bad() {
    assert_eq!(
        user_agent(req("GET /user-agent HTTP/1.1\r\nHost: h\r\n\r\n", b"")),
        Err(ServerErrors::BadRequest)
    );
    assert_eq!(
        user_agent(req("GET /user-agent HTTP/1.1\r\nuser-agent: foo/1.0\r\n\r\n", b"")),
        Err(ServerErrors::BadRequest)
    );
}

#[test]
fn file_get_asks_to_read_below_the_root() {
    assert_eq!(
        file_get(req("GET /files/x.txt HTTP/1.1\r\n\r\n", b""), Some("/tmp/data")),
        Action::ReadFile("/tmp/data/x.txt".to_string())
    );
    assert_eq!(
        file_get(req("GET /files/a/b HTTP/1.1\r\n\r\n", b""), Some("/root/")),
        Action::ReadFile("/root//a/b".to_string())
    );
    assert_eq!(
        file_get(req("GET /files HTTP/1.1\r\n\r\n", b""), Some("d")),
        Action::ReadFile("d/".to_string())
    );
}

#[test]
fn file_location_is_not_sanitized() {
    assert_eq!(
        file_get(req("GET /files/../secret HTTP/1.1\r\n\r\n", b""), Some("/srv")),
        Action::ReadFile("/srv/../secret".to_string())
    );
}

#[test]
fn file_post_asks_to_write_the_body() {
    assert_eq!(
        file_post(
            req("POST /files/x HTTP/1.1\r\nContent-Length: 5\r\n\r\n", b"hello"),
            Some("/tmp/data")
        ),
        Action::WriteFile("/tmp/data/x".to_string(), "hello".to_string())
    );
}

#[test]
fn file_handlers_without_a_root_are_bad_requests() {
    assert_eq!(
        file_get(req("GET /files/x HTTP/1.1\r\n\r\n", b""), None),
        Action::Reply(Err(ServerErrors::BadRequest))
    );
    assert_eq!(
        file_post(req("POST /files/x HTTP/1.1\r\n\r\n", b""), None),
        Action::Reply(Err(ServerErrors::BadRequest))
    );
}

#[test]
fn a_reply_is_complete_as_it_stands() {
    assert_eq!(
        complete(Action::Reply(Ok(Response::StatusOk)), FileOutcome::Failed),
        Ok(Response::StatusOk)
    );
    assert_eq!(
        complete(Action::Reply(Err(ServerErrors::UrlNotFound)), FileOutcome::Written),
        Err(ServerErrors::UrlNotFound)
    );
}

#[test]
fn a_read_completes_with_the_contents() {
    assert_eq!(
        complete(Action::ReadFile("p".to_string()), FileOutcome::Contents("data".to_string())),
        Ok(Response::OctetStream("data".to_string()))
    );
    assert_eq!(
        complete(Action::ReadFile("p".to_string()), FileOutcome::Contents(String::new())),
        Ok(Response::OctetStream(String::new()))
    );
}

#[test]
fn a_failed_read_is_object_not_found() {
    assert_eq!(
        complete(Action::ReadFile("p".to_string()), FileOutcome::Failed),
        Err(ServerErrors::ObjectNotFound)
    );
    assert_eq!(
        complete(Action::ReadFile("p".to_string()), FileOutcome::Written),
        Err(ServerErrors::ObjectNotFound)
    );
}

#[test]
fn a_write_completes_with_created() {
    assert_eq!(
        complete(Action::WriteFile("p".to_string(), "c".to_string()), FileOutcome::Written),
        Ok(Response::Created)
    );
}

#[test]
fn a_failed_write_is_an_internal_error() {
    assert_eq!(
        complete(Action::WriteFile("p".to_string(), "c".to_string()), FileOutcome::Failed),
        Err(ServerErrors::InternalServerError)
    );
    assert_eq!(
        complete(
            Action::WriteFile("p".to_string(), "c".to_string()),
            FileOutcome::Contents("c".to_string())
        ),
        Err(ServerErrors::InternalServerError)
    );
}
