//! The request: its method, path, header fields and body, and the parser that
//! builds it from the text received on a connection.

use crate::header_map::HeaderMap;
use crate::text::{
    chars_of, decode, find_char, find_separator, lemma_separator, parse_decimal, parse_usize,
    position, range_equals, separator, text_of,
};
use crate::types::{ServerErrors, ServerResult};
use vstd::prelude::*;
use vstd::string::StringSliceAdditionalSpecFns;
use vstd::utf8::{decode_utf8, decode_utf8_encode_utf8, encode_utf8, valid_utf8};

verus! {

/// The request methods the server understands.
#[derive(Clone, Copy, Debug, PartialEq, Eq, Structural)]
pub enum Method {
    Get,
    Post,
}

/// The method a request-line token names: exactly `GET` or `POST`, in upper
/// case; any other token names none.
pub open spec fn method_of(token: Seq<char>) -> Option<Method> {
    if token == "GET"@ {
        Some(Method::Get)
    } else if token == "POST"@ {
        Some(Method::Post)
    } else {
        None
    }
}

/// Reads the method named by `v[lo..hi]`.
pub(crate) fn method_in(v: &Vec<char>, lo: usize, hi: usize) -> (m: Option<Method>)
    requires
        lo <= hi <= v.len(),
    ensures
        m == method_of(v@.subrange(lo as int, hi as int)),
{
    let get: Vec<char> = vec!['G', 'E', 'T'];
    let post: Vec<char> = vec!['P', 'O', 'S', 'T'];
    proof {
        reveal_strlit("GET");
        reveal_strlit("POST");
        assert(get@ =~= "GET"@);
        assert(post@ =~= "POST"@);
    }
    if range_equals(v, lo, hi, &get) {
        Some(Method::Get)
    } else if range_equals(v, lo, hi, &post) {
        Some(Method::Post)
    } else {
        None
    }
}

impl vstd::std_specs::convert::TryFromSpecImpl<&str> for Method {
    open spec fn obeys_try_from_spec() -> bool {
        true
    }

    open spec fn try_from_spec(value: &str) -> Result<Self, ServerErrors> {
        match method_of(value@) {
            Some(m) => Ok(m),
            None => Err(ServerErrors::BadRequest),
        }
    }
}

impl TryFrom<&str> for Method {
    type Error = ServerErrors;

    /// Reads a method from its token; a token that names no method is a bad
    /// request.
    fn try_from(value: &str) -> (r: Result<Self, Self::Error>)
        ensures
            r == match method_of(value@) {
                Some(m) => Ok::<Method, ServerErrors>(m),
                None => Err::<Method, ServerErrors>(ServerErrors::BadRequest),
            },
    {
        let v = chars_of(value);
        assert(v@.subrange(0, v@.len() as int) =~= v@);
        match method_in(&v, 0, v.len()) {
            Some(m) => Ok(m),
            None => Err(ServerErrors::BadRequest),
        }
    }
}

/// The first line of `s`: everything before the first line feed, without the
/// carriage return that may stand right before it. A text without a line feed
/// is one line.
pub open spec fn first_line(s: Seq<char>) -> Seq<char> {
    let k = position(s, '\n');
    if 0 < k < s.len() && s[k - 1] == '\r' {
        s.subrange(0, k - 1)
    } else {
        s.subrange(0, k)
    }
}

/// What follows the first line of `s`, past its line feed.
pub open spec fn after_first_line(s: Seq<char>) -> Seq<char> {
    let k = position(s, '\n');
    if 0 <= k < s.len() {
        s.subrange(k + 1, s.len() as int)
    } else {
        Seq::empty()
    }
}

/// The lines of `s`. Each ends at a line feed or at the end of the text; the
/// line feed, and a carriage return right before it, belong to no line. A
/// text that ends in a line feed has no empty line after it.
pub open spec fn lines(s: Seq<char>) -> Seq<Seq<char>>
    decreases s.len(),
{
    if s.len() == 0 {
        Seq::empty()
    } else {
        seq![first_line(s)] + lines(after_first_line(s))
    }
}

/// The name and value of a header line: the text before and after its first
/// `": "`. A line without `": "` is no header.
pub open spec fn header_field(line: Seq<char>) -> Option<(Seq<char>, Seq<char>)> {
    let k = separator(line);
    if 0 <= k < line.len() {
        Some((line.subrange(0, k), line.subrange(k + 2, line.len() as int)))
    } else {
        None
    }
}

/// The header fields that a run of lines declares. Lines that are no header
/// are passed over; of two lines with the same name the later one counts.
pub open spec fn header_fields(lines: Seq<Seq<char>>) -> Map<Seq<char>, Seq<char>>
    decreases lines.len(),
{
    if lines.len() == 0 {
        Map::empty()
    } else {
        let before = header_fields(lines.drop_last());
        match header_field(lines.last()) {
            Some((name, value)) => before.insert(name, value),
            None => before,
        }
    }
}

/// Of two header lines with the same name the later one counts: the value
/// held for a name is that of the last line that declares it.
pub proof fn lemma_last_header_wins(
    lines: Seq<Seq<char>>,
    i: int,
    name: Seq<char>,
    value: Seq<char>,
)
    requires
        0 <= i < lines.len(),
        header_field(lines[i]) == Some((name, value)),
        forall|j: int|
            i < j < lines.len() ==> (header_field(#[trigger] lines[j]) matches Some(later)
                ==> later.0 != name),
    ensures
        header_fields(lines).contains_key(name),
        header_fields(lines)[name] == value,
    decreases lines.len(),
{
    if i < lines.len() - 1 {
        let before = lines.drop_last();
        assert(before[i] == lines[i]);
        assert forall|j: int| i < j < before.len() implies (header_field(
            #[trigger] before[j],
        ) matches Some(later) ==> later.0 != name) by {
            assert(before[j] == lines[j]);
        }
        lemma_last_header_wins(before, i, name, value);
        assert(lines.last() == lines[lines.len() - 1]);
    }
}

/// A name that no line declares has no value.
pub proof fn lemma_undeclared_header(lines: Seq<Seq<char>>, name: Seq<char>)
    requires
        forall|j: int|
            0 <= j < lines.len() ==> (header_field(#[trigger] lines[j]) matches Some(field)
                ==> field.0 != name),
    ensures
        !header_fields(lines).contains_key(name),
    decreases lines.len(),
{
    if lines.len() > 0 {
        let before = lines.drop_last();
        assert forall|j: int| 0 <= j < before.len() implies (header_field(
            #[trigger] before[j],
        ) matches Some(field) ==> field.0 != name) by {
            assert(before[j] == lines[j]);
        }
        lemma_undeclared_header(before, name);
        assert(lines.last() == lines[lines.len() - 1]);
    }
}

/// What the header block of a request says, as plain values.
pub ghost struct HeadersView {
    pub method: Method,
    pub path: Seq<char>,
    pub headers: Map<Seq<char>, Seq<char>>,
}

/// The meaning of a header block.
///
/// The first line is split on single spaces. It must hold at least two
/// tokens; the first must name a method, the second is the path, taken as it
/// stands. Whatever follows the path on that line is not looked at. Every
/// further line declares a header field or is passed over.
pub open spec fn parse_headers(data: Seq<char>) -> Result<HeadersView, ServerErrors> {
    let line = first_line(data);
    let space = position(line, ' ');
    if space >= line.len() {
        Err(ServerErrors::BadRequest)
    } else {
        let rest = line.subrange(space + 1, line.len() as int);
        match method_of(line.subrange(0, space)) {
            None => Err(ServerErrors::BadRequest),
            Some(method) => Ok(
                HeadersView {
                    method,
                    path: rest.subrange(0, position(rest, ' ')),
                    headers: header_fields(lines(after_first_line(data))),
                },
            ),
        }
    }
}

/// The parsed header block of a request.
#[derive(Debug)]
pub struct Headers {
    method: Method,
    path: String,
    headers: HeaderMap,
}

impl View for Headers {
    type V = HeadersView;

    closed spec fn view(&self) -> HeadersView {
        HeadersView { method: self.method, path: self.path@, headers: self.headers@ }
    }
}

/// Index just past the line that starts at `pos`, and the index at which the
/// text of that line ends.
fn line_bounds(v: &Vec<char>, pos: usize) -> (bounds: (usize, usize))
    requires
        pos <= v.len(),
    ensures
        pos <= bounds.0 <= bounds.1 <= v.len(),
        v@.subrange(pos as int, bounds.0 as int) == first_line(v@.skip(pos as int)),
        v@.skip(bounds.1 as int) == after_first_line(v@.skip(pos as int)),
        pos < v.len() ==> pos < bounds.1,
{
    let n = v.len();
    let ghost s = v@.skip(pos as int);
    assert(s =~= v@.subrange(pos as int, n as int));
    let feed = find_char(v, pos, n, '\n');
    let end = if pos < feed && feed < n && v[feed - 1] == '\r' {
        feed - 1
    } else {
        feed
    };
    let next = if feed < n {
        feed + 1
    } else {
        n
    };
    proof {
        let k = position(s, '\n');
        assert(k == feed - pos);
        if 0 < k < s.len() {
            assert(s[k - 1] == v@[feed - 1]);
        }
        assert(v@.subrange(pos as int, end as int) =~= first_line(s));
        assert(v@.skip(next as int) =~= after_first_line(s));
    }
    (end, next)
}

/// Reads the header fields declared by the lines of `v[start..]`.
fn read_fields(v: &Vec<char>, start: usize) -> (fields: HeaderMap)
    requires
        start <= v.len(),
    ensures
        fields@ == header_fields(lines(v@.skip(start as int))),
{
    let n = v.len();
    let mut fields = HeaderMap::new();
    let mut pos: usize = start;
    let ghost mut done: Seq<Seq<char>> = Seq::empty();
    assert(done + lines(v@.skip(pos as int)) =~= lines(v@.skip(start as int)));
    while pos < n
        invariant
            n == v.len(),
            start <= pos <= n,
            lines(v@.skip(start as int)) == done + lines(v@.skip(pos as int)),
            fields@ == header_fields(done),
        decreases n - pos,
    {
        let (end, next) = line_bounds(v, pos);
        let ghost line = v@.subrange(pos as int, end as int);
        let ghost before = done;
        let mark = find_separator(v, pos, end);
        if mark < end {
            proof {
                lemma_separator(line);
            }
            let name = text_of(v, pos, mark);
            let value = text_of(v, mark + 2, end);
            proof {
                assert(name@ =~= line.subrange(0, mark - pos));
                assert(value@ =~= line.subrange(mark - pos + 2, line.len() as int));
            }
            fields.insert(name, value);
        }
        proof {
            done = before.push(line);
            assert(done.drop_last() =~= before);
            assert(done.last() == line);
            let s = v@.skip(pos as int);
            assert(s.len() > 0);
            assert(lines(s) == seq![line] + lines(v@.skip(next as int)));
            assert(before + lines(s) =~= done + lines(v@.skip(next as int)));
        }
        pos = next;
    }
    proof {
        assert(v@.skip(pos as int).len() == 0);
        assert(done + lines(v@.skip(pos as int)) =~= done);
    }
    fields
}

impl Headers {
    /// Parses a header block.
    ///
    /// Fails with `BadRequest` when the first line holds fewer than two
    /// space-separated tokens or its first token is neither `GET` nor `POST`,
    /// and in no other case.
    pub fn new(data: String) -> (r: ServerResult<Self>)
        ensures
            match r {
                Ok(h) => parse_headers(data@) == Ok::<HeadersView, ServerErrors>(h@),
                Err(e) => parse_headers(data@) == Err::<HeadersView, ServerErrors>(e),
            },
    {
        let v = chars_of(data.as_str());
        assert(v@.skip(0) =~= v@);
        let (end, next) = line_bounds(&v, 0);
        let ghost line = v@.subrange(0, end as int);
        let space = find_char(&v, 0, end, ' ');
        if space >= end {
            return Err(ServerErrors::BadRequest);
        }
        assert(line.subrange(0, space as int) =~= v@.subrange(0, space as int));
        let method = match method_in(&v, 0, space) {
            Some(m) => m,
            None => {
                return Err(ServerErrors::BadRequest);
            },
        };
        let ghost rest = line.subrange(space + 1, line.len() as int);
        assert(rest =~= v@.subrange(space + 1, end as int));
        let stop = find_char(&v, space + 1, end, ' ');
        let path = text_of(&v, space + 1, stop);
        assert(path@ =~= rest.subrange(0, position(rest, ' ')));
        let headers = read_fields(&v, next);
        Ok(Self { method, path, headers })
    }

    /// The request path, as it stood on the request line.
    pub fn get_path(&self) -> (path: String)
        ensures
            path@ == self@.path,
    {
        self.path.clone()
    }

    /// The request method.
    pub fn get_method(&self) -> (method: Method)
        ensures
            method == self@.method,
    {
        self.method
    }

    /// A copy of the header fields.
    pub fn get_headers(&self) -> (headers: HeaderMap)
        ensures
            headers@ == self@.headers,
    {
        self.headers.clone()
    }

    /// The number of body bytes the header block declares.
    ///
    /// Zero when there is no `Content-Length` field; `BadRequest` when the
    /// field does not hold a number.
    pub fn content_length(&self) -> (r: ServerResult<usize>)
        ensures
            r == declared_length(self@.headers),
    {
        match self.headers.get("Content-Length") {
            None => Ok(0),
            Some(value) => match parse_usize(value.as_str()) {
                Some(n) => Ok(n),
                None => Err(ServerErrors::BadRequest),
            },
        }
    }
}

/// The body length that header fields declare: the number in the
/// `Content-Length` field (the name is matched exactly), zero when the field
/// is absent, and a bad request when the field holds no number.
pub open spec fn declared_length(headers: Map<Seq<char>, Seq<char>>) -> Result<
    usize,
    ServerErrors,
> {
    if headers.contains_key("Content-Length"@) {
        match parse_decimal(headers["Content-Length"@]) {
            Some(n) => Ok(n),
            None => Err(ServerErrors::BadRequest),
        }
    } else {
        Ok(0)
    }
}

/// What a request says, as plain values.
pub ghost struct RequestView {
    pub method: Method,
    pub path: Seq<char>,
    pub headers: Map<Seq<char>, Seq<char>>,
    pub body: Seq<char>,
}

/// The request made of a header block and the body bytes that were read
/// after it.
///
/// The body must hold exactly as many bytes as the header block declares and
/// must be well-formed UTF-8; a body that is either short, long or
/// undecodable is an internal error, not a bad request.
pub open spec fn assemble(headers: HeadersView, body: Seq<u8>) -> Result<
    RequestView,
    ServerErrors,
> {
    match declared_length(headers.headers) {
        Err(e) => Err(e),
        Ok(n) => if body.len() == n && valid_utf8(body) {
            Ok(
                RequestView {
                    method: headers.method,
                    path: headers.path,
                    headers: headers.headers,
                    body: decode_utf8(body),
                },
            )
        } else {
            Err(ServerErrors::InternalServerError)
        },
    }
}

/// A request holds the body it declared: the bytes of its body are the bytes
/// that were read, and they are exactly as many as its `Content-Length` says
/// (none, when it says nothing).
pub proof fn lemma_body_as_declared(headers: HeadersView, body: Seq<u8>)
    requires
        assemble(headers, body) is Ok,
    ensures
        ({
            let request = assemble(headers, body)->Ok_0;
            &&& encode_utf8(request.body) == body
            &&& declared_length(request.headers) == Ok::<usize, ServerErrors>(body.len() as usize)
            &&& body.len() <= usize::MAX
        }),
{
    decode_utf8_encode_utf8(body);
}

/// The part of a path that follows its first segment: what stands after the
/// second `/` of a path that begins with `/`, and nothing for any other path.
pub open spec fn extra_path(path: Seq<char>) -> Seq<char> {
    if path.len() > 0 && path[0] == '/' {
        let rest = path.drop_first();
        let k = position(rest, '/');
        if 0 <= k < rest.len() {
            rest.subrange(k + 1, rest.len() as int)
        } else {
            Seq::empty()
        }
    } else {
        Seq::empty()
    }
}

/// True when the bytes end with the blank line that closes a header block:
/// carriage return, line feed, carriage return, line feed.
pub open spec fn ends_header_block(bytes: Seq<u8>) -> bool {
    let n = bytes.len() as int;
    n >= 4 && bytes[n - 4] == 13 && bytes[n - 3] == 10 && bytes[n - 2] == 13 && bytes[n - 1] == 10
}

/// Decides whether reading the header block is over: it is once a read
/// returned no bytes, or once the block ends with the blank line.
pub fn header_block_complete(block: &str, read: usize) -> (done: bool)
    ensures
        done == (read == 0 || ends_header_block(block.spec_bytes())),
{
    if read == 0 {
        return true;
    }
    let bytes = block.as_bytes();
    let n = bytes.len();
    n >= 4 && bytes[n - 4] == 13 && bytes[n - 3] == 10 && bytes[n - 2] == 13 && bytes[n - 1] == 10
}

/// A parsed request.
#[derive(Debug)]
pub struct Request {
    headers: Headers,
    body: String,
}

impl View for Request {
    type V = RequestView;

    closed spec fn view(&self) -> RequestView {
        RequestView {
            method: self.headers@.method,
            path: self.headers@.path,
            headers: self.headers@.headers,
            body: self.body@,
        }
    }
}

impl Request {
    /// Joins a parsed header block with the body bytes read after it.
    ///
    /// Fails with `BadRequest` when `Content-Length` holds no number, and with
    /// `InternalServerError` when the body does not hold exactly the declared
    /// number of bytes or is not well-formed UTF-8.
    pub fn from_parts(headers: Headers, body: Vec<u8>) -> (r: ServerResult<Self>)
        ensures
            match r {
                Ok(request) => assemble(headers@, body@) == Ok::<RequestView, ServerErrors>(
                    request@,
                ),
                Err(e) => assemble(headers@, body@) == Err::<RequestView, ServerErrors>(e),
            },
    {
        let declared = match headers.content_length() {
            Ok(n) => n,
            Err(e) => {
                return Err(e);
            },
        };
        if body.len() != declared {
            return Err(ServerErrors::InternalServerError);
        }
        match decode(body) {
            Some(text) => Ok(Self { headers, body: text }),
            None => Err(ServerErrors::InternalServerError),
        }
    }

    /// The request path, as it stood on the request line.
    pub fn get_path_str(&self) -> (path: String)
        ensures
            path@ == self@.path,
    {
        self.headers.get_path()
    }

    /// The part of the path after its first segment: `abc` for `/echo/abc`,
    /// `a/b` for `/echo/a/b`, and the empty string for a path with fewer than
    /// two `/` or one that does not begin with `/`.
    pub fn get_extra_path(&self) -> (extra: String)
        ensures
            extra@ == extra_path(self@.path),
    {
        let v = chars_of(self.headers.path.as_str());
        let n = v.len();
        if n > 0 && v[0] == '/' {
            assert(v@.subrange(1, n as int) =~= v@.drop_first());
            let slash = find_char(&v, 1, n, '/');
            if slash < n {
                let extra = text_of(&v, slash + 1, n);
                assert(extra@ =~= v@.drop_first().subrange(slash - 1 + 1, n - 1));
                extra
            } else {
                String::new()
            }
        } else {
            String::new()
        }
    }

    /// A copy of the header fields.
    pub fn get_headers(&self) -> (headers: HeaderMap)
        ensures
            headers@ == self@.headers,
    {
        self.headers.get_headers()
    }

    /// The request method.
    pub fn get_method(&self) -> (method: Method)
        ensures
            method == self@.method,
    {
        self.headers.get_method()
    }

    /// The request body.
    pub fn get_body(&self) -> (body: String)
        ensures
            body@ == self@.body,
    {
        self.body.clone()
    }
}

} // verus!
