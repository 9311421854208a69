use http_server::request::{header_block_complete, Headers, Method, Request};
use http_server::types::ServerErrors;

fn parsed(data: &str) -> Headers {
    Headers::new(data.to_string()).unwrap()
}

fn assembled(data: &str, body: &[u8]) -> Request {
    Request::from_parts(parsed(data), body.to_vec()).unwrap()
}

#[test]
fn method_tokens() {
    assert_eq!(Method::try_from("GET"), Ok(Method::Get));
    assert_eq!(Method::try_from("POST"), Ok(Method::Post));
}

#[test]
fn method_tokens_are_case_sensitive_and_exact() {
    assert_eq!(Method::try_from("get"), Err(ServerErrors::BadRequest));
    assert_eq!(Method::try_from("Post"), Err(ServerErrors::BadRequest));
    assert_eq!(Method::try_from("GETS"), Err(ServerErrors::BadRequest));
    assert_eq!(Method::try_from("GE"), Err(ServerErrors::BadRequest));
    assert_eq!(Method::try_from(""), Err(ServerErrors::BadRequest));
    assert_eq!(Method::try_from("PUT"), Err(ServerErrors::BadRequest));
    assert_eq!(Method::try_from(" GET"), Err(ServerErrors::BadRequest));
}

#[test]
fn parses_a_plain_get() {
    let h = parsed("GET /index.html HTTP/1.1\r\nHost: localhost:4221\r\nUser-Agent: curl/7.64.1\r\n\r\n");
    assert_eq!(h.get_method(), Method::Get);
    assert_eq!(h.get_path(), "/index.html");
    let fields = h.get_headers();
    assert_eq!(fields.len(), 2);
    assert_eq!(fields.get("Host"), Some(&"localhost:4221".to_string()));
    assert_eq!(fields.get("User-Agent"), Some(&"curl/7.64.1".to_string()));
}

#[test]
fn parses_a_post() {
    let h = parsed("POST /files/x HTTP/1.1\r\nContent-Length: 5\r\n\r\n");
    assert_eq!(h.get_method(), Method::Post);
    assert_eq!(h.get_path(), "/files/x");
    assert_eq!(h.content_length(), Ok(5));
}

#[test]
fn request_line_with_fewer_than_two_tokens_is_bad() {
    assert_eq!(Headers::new("GET\r\n\r\n".to_string()).err(), Some(ServerErrors::BadRequest));
    assert_eq!(Headers::new("".to_string()).err(), Some(ServerErrors::BadRequest));
    assert_eq!(Headers::new("\r\n".to_string()).err(), Some(ServerErrors::BadRequest));
    assert_eq!(Headers::new("GET".to_string()).err(), Some(ServerErrors::BadRequest));
    assert_eq!(
        Headers::new("GET\r\nHost: a b\r\n\r\n".to_string()).err(),
        Some(ServerErrors::BadRequest)
    );
    assert_eq!(Headers::new("/index.html\r\n".to_string()).err(), Some(ServerErrors::BadRequest));
}

#[test]
fn unknown_method_is_bad() {
    assert_eq!(
        Headers::new("PUT / HTTP/1.1\r\n\r\n".to_string()).err(),
        Some(ServerErrors::BadRequest)
    );
    assert_eq!(
        Headers::new("get / HTTP/1.1\r\n\r\n".to_string()).err(),
        Some(ServerErrors::BadRequest)
    );
    assert_eq!(
        Headers::new(" GET / HTTP/1.1\r\n\r\n".to_string()).err(),
        Some(ServerErrors::BadRequest)
    );
}

#[test]
fn path_is_the_second_token_taken_raw() {
    assert_eq!(parsed("GET /a%20b?x=1&y=2 HTTP/1.1\r\n\r\n").get_path(), "/a%20b?x=1&y=2");
    assert_eq!(parsed("GET  /x HTTP/1.1\r\n\r\n").get_path(), "");
    assert_eq!(parsed("GET \r\n\r\n").get_path(), "");
    assert_eq!(parsed("GET /x\tHTTP/1.1\r\n\r\n").get_path(), "/x\tHTTP/1.1");
}

#[test]
fn version_is_optional_and_not_validated() {
    let h = parsed("GET /path\r\nHost: a b\r\n\r\n");
    assert_eq!(h.get_path(), "/path");
    assert_eq!(h.get_headers().get("Host"), Some(&"a b".to_string()));
    assert_eq!(parsed("GET /x nonsense more\r\n\r\n").get_path(), "/x");
    assert_eq!(parsed("GET /x").get_path(), "/x");
}

#[test]
fn rest_of_the_request_line_is_no_header() {
    let h = parsed("GET / Name: value\r\nHost: h\r\n\r\n");
    let fields = h.get_headers();
    assert_eq!(fields.get("Name"), None);
    assert_eq!(fields.get("HTTP/1.1"), None);
    assert_eq!(fields.len(), 1);
}

#[test]
fn lines_without_separator_are_dropped() {
    let h = parsed("GET / HTTP/1.1\r\nHost: h\r\nnonsense\r\nNoSpace:value\r\n: \r\nAccept: */*\r\n\r\n");
    let fields = h.get_headers();
    assert_eq!(fields.len(), 3);
    assert_eq!(fields.get("Host"), Some(&"h".to_string()));
    assert_eq!(fields.get("Accept"), Some(&"*/*".to_string()));
    assert_eq!(fields.get(""), Some(&"".to_string()));
    assert_eq!(fields.get("NoSpace"), None);
}

#[test]
fn header_line_is_split_once() {
    let h = parsed("GET / HTTP/1.1\r\nX: a: b: c\r\nY:  two spaces\r\nZ: \r\n\r\n");
    let fields = h.get_headers();
    assert_eq!(fields.get("X"), Some(&"a: b: c".to_string()));
    assert_eq!(fields.get("Y:"), None);
    assert_eq!(fields.get("Y"), Some(&" two spaces".to_string()));
    assert_eq!(fields.get("Z"), Some(&"".to_string()));
}

#[test]
fn last_duplicate_header_wins() {
    let h = parsed("GET / HTTP/1.1\r\nX: 1\r\nY: 2\r\nX: 3\r\n\r\n");
    let fields = h.get_headers();
    assert_eq!(fields.get("X"), Some(&"3".to_string()));
    assert_eq!(fields.get("Y"), Some(&"2".to_string()));
    assert_eq!(fields.len(), 2);
}

#[test]
fn header_names_are_case_sensitive() {
    let h = parsed("GET / HTTP/1.1\r\nhost: a\r\nHost: b\r\n\r\n");
    let fields = h.get_headers();
    assert_eq!(fields.get("host"), Some(&"a".to_string()));
    assert_eq!(fields.get("Host"), Some(&"b".to_string()));
    assert_eq!(fields.get("HOST"), None);
}

#[test]
fn bare_line_feeds_end_lines_too() {
    let h = parsed("GET /x HTTP/1.1\nHost: h\nAccept: a\n\n");
    assert_eq!(h.get_path(), "/x");
    let fields = h.get_headers();
    assert_eq!(fields.get("Host"), Some(&"h".to_string()));
    assert_eq!(fields.get("Accept"), Some(&"a".to_string()));
}

#[test]
fn only_one_carriage_return_is_taken_off_a_line() {
    let h = parsed("GET / HTTP/1.1\r\nA: 1\r\r\nB: 2\rC: 3\r\nD: 4\r");
    let fields = h.get_headers();
    assert_eq!(fields.get("A"), Some(&"1\r".to_string()));
    assert_eq!(fields.get("B"), Some(&"2\rC: 3".to_string()));
    assert_eq!(fields.get("D"), Some(&"4\r".to_string()));
}

#[test]
fn header_block_without_final_blank_line() {
    let h = parsed("GET / HTTP/1.1\r\nHost: h");
    assert_eq!(h.get_headers().get("Host"), Some(&"h".to_string()));
}

#[test]
fn header_lines_agree_with_the_standard_line_splitter() {
    let blocks = vec![
        "GET / HTTP/1.1\r\nA: 1\r\nB: 2\r\n\r\n",
        "GET / HTTP/1.1\nA: 1\r\n\nB: 2",
        "GET / HTTP/1.1\r\n\r\n\r\nA: 1\r\r\n",
        "GET / HTTP/1.1\r\nA: 1\n\rB: 2\n",
        "GET / HTTP/1.1",
    ];
    for block in blocks {
        let fields = parsed(block).get_headers();
        let mut expected: Vec<(String, String)> = Vec::new();
        for line in block.lines().skip(1) {
            if let Some((name, value)) = line.split_once(": ") {
                expected.retain(|(n, _)| n != name);
                expected.push((name.to_string(), value.to_string()));
            }
        }
        assert_eq!(fields.len(), expected.len(), "block {:?}", block);
        for (name, value) in expected {
            assert_eq!(fields.get(&name), Some(&value), "block {:?}", block);
        }
    }
}

#[test]
fn non_ascii_text_is_kept() {
    let h = parsed("GET /caf\u{e9} HTTP/1.1\r\nX-Na\u{ef}ve: \u{1f600}\r\n\r\n");
    assert_eq!(h.get_path(), "/caf\u{e9}");
    assert_eq!(h.get_headers().get("X-Na\u{ef}ve"), Some(&"\u{1f600}".to_string()));
}

#[test]
fn content_length_defaults_to_zero() {
    assert_eq!(parsed("GET / HTTP/1.1\r\n\r\n").content_length(), Ok(0));
    assert_eq!(parsed("GET / HTTP/1.1\r\ncontent-length: 7\r\n\r\n").content_length(), Ok(0));
}

#[test]
fn content_length_is_read_as_a_number() {
    assert_eq!(parsed("GET / HTTP/1.1\r\nContent-Length: 0\r\n\r\n").content_length(), Ok(0));
    assert_eq!(parsed("GET / HTTP/1.1\r\nContent-Length: 42\r\n\r\n").content_length(), Ok(42));
    assert_eq!(parsed("GET / HTTP/1.1\r\nContent-Length: +42\r\n\r\n").content_length(), Ok(42));
    assert_eq!(
        parsed("GET / HTTP/1.1\r\nContent-Length: 1\r\nContent-Length: 2\r\n\r\n").content_length(),
        Ok(2)
    );
}

#[test]
fn content_length_that_is_no_number_is_bad() {
    let bad = vec!["abc", "", "-1", "5 ", " 5", "1.0", "0x5", "99999999999999999999999999"];
    for value in bad {
        let block = format!("GET / HTTP/1.1\r\nContent-Length: {}\r\n\r\n", value);
        assert_eq!(parsed(&block).content_length(), Err(ServerErrors::BadRequest), "{:?}", value);
    }
}

#[test]
fn request_without_body() {
    let r = assembled("GET /x HTTP/1.1\r\nHost: h\r\n\r\n", b"");
    assert_eq!(r.get_method(), Method::Get);
    assert_eq!(r.get_path_str(), "/x");
    assert_eq!(r.get_body(), "");
    assert_eq!(r.get_headers().get("Host"), Some(&"h".to_string()));
}

#[test]
fn request_with_body() {
    let r = assembled("POST /files/x HTTP/1.1\r\nContent-Length: 5\r\n\r\n", b"hello");
    assert_eq!(r.get_method(), Method::Post);
    assert_eq!(r.get_body(), "hello");
}

#[test]
fn body_is_decoded_as_utf8() {
    let r = assembled("POST /files/x HTTP/1.1\r\nContent-Length: 6\r\n\r\n", "h\u{e9}\u{20ac}".as_bytes());
    assert_eq!(r.get_body(), "h\u{e9}\u{20ac}");
    assert_eq!(r.get_body().chars().count(), 3);
}

#[test]
fn short_body_is_an_internal_error() {
    let h = parsed("POST /files/x HTTP/1.1\r\nContent-Length: 5\r\n\r\n");
    assert_eq!(
        Request::from_parts(h, b"abc".to_vec()).err(),
        Some(ServerErrors::InternalServerError)
    );
}

#[test]
fn long_body_is_an_internal_error() {
    let h = parsed("POST /files/x HTTP/1.1\r\nContent-Length: 2\r\n\r\n");
    assert_eq!(
        Request::from_parts(h, b"abc".to_vec()).err(),
        Some(ServerErrors::InternalServerError)
    );
    let none = parsed("GET / HTTP/1.1\r\n\r\n");
    assert_eq!(
        Request::from_parts(none, b"a".to_vec()).err(),
        Some(ServerErrors::InternalServerError)
    );
}

#[test]
fn undecodable_body_is_an_internal_error() {
    let h = parsed("POST /files/x HTTP/1.1\r\nContent-Length: 2\r\n\r\n");
    assert_eq!(
        Request::from_parts(h, vec![0xff, 0xfe]).err(),
        Some(ServerErrors::InternalServerError)
    );
    let cut = parsed("POST /files/x HTTP/1.1\r\nContent-Length: 1\r\n\r\n");
    assert_eq!(
        Request::from_parts(cut, vec![0xc3]).err(),
        Some(ServerErrors::InternalServerError)
    );
}

#[test]
fn bad_content_length_comes_before_the_body() {
    let h = parsed("POST /files/x HTTP/1.1\r\nContent-Length: five\r\n\r\n");
    assert_eq!(Request::from_parts(h, vec![0xff]).err(), Some(ServerErrors::BadRequest));
}

#[test]
fn extra_path_is_what_follows_the_first_segment() {
    assert_eq!(assembled("GET /echo/abc HTTP/1.1\r\n\r\n", b"").get_extra_path(), "abc");
    assert_eq!(assembled("GET /echo/a/b HTTP/1.1\r\n\r\n", b"").get_extra_path(), "a/b");
    assert_eq!(assembled("GET /files//x/ HTTP/1.1\r\n\r\n", b"").get_extra_path(), "/x/");
    assert_eq!(assembled("GET //x HTTP/1.1\r\n\r\n", b"").get_extra_path(), "x");
}

#[test]
fn extra_path_is_empty_without_a_second_slash() {
    assert_eq!(assembled("GET /echo HTTP/1.1\r\n\r\n", b"").get_extra_path(), "");
    assert_eq!(assembled("GET /echo/ HTTP/1.1\r\n\r\n", b"").get_extra_path(), "");
    assert_eq!(assembled("GET / HTTP/1.1\r\n\r\n", b"").get_extra_path(), "");
    assert_eq!(assembled("GET  HTTP/1.1\r\n\r\n", b"").get_extra_path(), "");
    assert_eq!(assembled("GET echo/abc HTTP/1.1\r\n\r\n", b"").get_extra_path(), "");
}

#[test]
fn header_block_ends_at_the_blank_line() {
    assert!(header_block_complete("GET / HTTP/1.1\r\n\r\n", 2));
    assert!(header_block_complete("\r\n\r\n", 2));
    assert!(!header_block_complete("GET / HTTP/1.1\r\n", 16));
    assert!(!header_block_complete("GET / HTTP/1.1\r\nHost: h\r\n", 9));
    assert!(!header_block_complete("GET / HTTP/1.1\n\n", 1));
    assert!(!header_block_complete("\n\r\n", 2));
    assert!(!header_block_complete("\r\n", 2));
    assert!(!header_block_complete("a\r\n\r\nb", 1));
}

#[test]
fn header_block_ends_at_end_of_input() {
    assert!(header_block_complete("", 0));
    assert!(header_block_complete("GET / HTTP/1.1\r\n", 0));
    assert!(!header_block_complete("", 1));
}
