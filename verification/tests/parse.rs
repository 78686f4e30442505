use mini_http::components::consts::BUF_SIZE;
use mini_http::components::method::Method;
use mini_http::components::status::Status;
use mini_http::response::Response;
use mini_http::utils::parse::{parse_request_line, parse_stream};

fn failure_of<T>(outcome: Result<T, Response>) -> (Status, String) {
    match outcome {
        Ok(_) => panic!("the input must be refused"),
        Err(res) => (res.status(), res.body().response_format().to_string()),
    }
}

fn parsed(buffer: &[u8]) -> (Method, String, Option<String>) {
    match parse_stream(buffer) {
        Ok((method, path, request)) => {
            assert_eq!(request.param, None);
            let body = request.body.as_ref().map(|json| json.response_format().to_string());
            (method, path.to_string(), body)
        }
        Err(res) => panic!("refused: {}", res.body().response_format()),
    }
}

// What the parser is meant to do, written with the string functions of std.
fn reference(buffer: &[u8]) -> Option<(String, String, Option<String>)> {
    let text = std::str::from_utf8(buffer).ok()?.trim_end();
    let mut lines = text.lines();
    let line = lines.next()?;
    let (method, path) = line.strip_suffix(" HTTP/1.1")?.split_once(' ')?;
    if !["GET", "POST", "PATCH", "DELETE"].contains(&method) {
        return None;
    }
    for header in lines.by_ref() {
        if header.is_empty() {
            break;
        }
    }
    let body = lines.next().filter(|body| !body.is_empty()).map(|body| body.to_string());
    Some((method.to_string(), path.to_string(), body))
}

#[test]
fn request_line_alone() {
    assert_eq!(parsed(b"GET / HTTP/1.1"), (Method::GET, "/".to_string(), None));
    assert_eq!(parsed(b"DELETE /a/b HTTP/1.1\r\n"), (Method::DELETE, "/a/b".to_string(), None));
}

#[test]
fn old_protocol_is_not_implemented() {
    assert_eq!(
        failure_of(parse_stream(b"GET / HTTP/1.0")),
        (Status::NotImplemented, "I can't handle protocols other than `HTTP/1.1`".to_string())
    );
    assert_eq!(failure_of(parse_stream(b"GET / HTTP/2")).0, Status::NotImplemented);
    assert_eq!(failure_of(parse_stream(b"GET /")).0, Status::NotImplemented);
    assert_eq!(failure_of(parse_stream(b"GET / http/1.1")).0, Status::NotImplemented);
    assert_eq!(failure_of(parse_stream(b"HTTP/1.1")).0, Status::NotImplemented);
    assert_eq!(failure_of(parse_request_line("GET / HTTP/1.1 ")).0, Status::NotImplemented);
}

#[test]
fn empty_buffer_is_an_empty_request() {
    assert_eq!(
        failure_of(parse_stream(b"")),
        (Status::BadRequest, "empty request".to_string())
    );
    assert_eq!(
        failure_of(parse_stream(&[b' '; BUF_SIZE])),
        (Status::BadRequest, "empty request".to_string())
    );
    assert_eq!(
        failure_of(parse_stream(b"\r\n\r\n \t\n")),
        (Status::BadRequest, "empty request".to_string())
    );
}

#[test]
fn unknown_method_is_a_bad_request() {
    assert_eq!(
        failure_of(parse_stream(b"FOO / HTTP/1.1")),
        (Status::BadRequest, "invalid request method: `FOO`".to_string())
    );
    assert_eq!(
        failure_of(parse_stream(b"get / HTTP/1.1")),
        (Status::BadRequest, "invalid request method: `get`".to_string())
    );
    assert_eq!(
        failure_of(parse_stream(b" / HTTP/1.1")),
        (Status::BadRequest, "invalid request method: ``".to_string())
    );
    assert_eq!(
        failure_of(parse_stream(b"PUT /x HTTP/1.1\r\n\r\n{}")),
        (Status::BadRequest, "invalid request method: `PUT`".to_string())
    );
}

#[test]
fn request_line_without_space_is_a_bad_request() {
    assert_eq!(
        failure_of(parse_stream(b"GET/ HTTP/1.1")),
        (Status::BadRequest, "invalid request line format".to_string())
    );
    assert_eq!(
        failure_of(parse_request_line(" HTTP/1.1")),
        (Status::BadRequest, "invalid request line format".to_string())
    );
}

#[test]
fn empty_first_line_has_no_status_line() {
    assert_eq!(
        failure_of(parse_stream(b"\nGET / HTTP/1.1")),
        (Status::BadRequest, "can't find request status line".to_string())
    );
    assert_eq!(
        failure_of(parse_request_line("")),
        (Status::BadRequest, "can't find request status line".to_string())
    );
}

#[test]
fn bytes_that_are_no_text_are_a_bad_request() {
    assert_eq!(
        failure_of(parse_stream(b"GET /\xff HTTP/1.1")),
        (Status::BadRequest, "request is not valid UTF-8".to_string())
    );
    assert_eq!(failure_of(parse_stream(&[0xC3])).0, Status::BadRequest);
    assert_eq!(failure_of(parse_stream(&[0xED, 0xA0, 0x80])).0, Status::BadRequest);
}

#[test]
fn path_is_everything_after_the_first_space() {
    assert_eq!(parsed(b"GET /a b HTTP/1.1"), (Method::GET, "/a b".to_string(), None));
    assert_eq!(parsed(b"GET  HTTP/1.1"), (Method::GET, "".to_string(), None));
    assert_eq!(
        parsed("POST /caf\u{e9}/\u{1F600} HTTP/1.1".as_bytes()),
        (Method::POST, "/caf\u{e9}/\u{1F600}".to_string(), None)
    );
    match parse_request_line("PATCH /x?y=1 HTTP/1.1") {
        Ok((method, path)) => {
            assert_eq!(method, Method::PATCH);
            assert_eq!(path, "/x?y=1");
        }
        Err(_) => panic!("a well-formed request line"),
    }
}

#[test]
fn headers_are_passed_over() {
    let buffer = b"POST /users HTTP/1.1\r\nHost: localhost\r\nContent-Type: application/json\r\n\r\n{\"a\":1}";
    assert_eq!(
        parsed(buffer),
        (Method::POST, "/users".to_string(), Some("{\"a\":1}".to_string()))
    );
    let buffer = b"POST /users HTTP/1.1\nHost: localhost\n\n{\"a\":1}\n";
    assert_eq!(
        parsed(buffer),
        (Method::POST, "/users".to_string(), Some("{\"a\":1}".to_string()))
    );
}

#[test]
fn body_is_one_line() {
    let buffer = b"POST / HTTP/1.1\r\n\r\nfirst\r\nsecond";
    assert_eq!(parsed(buffer), (Method::POST, "/".to_string(), Some("first".to_string())));
}

#[test]
fn body_needs_the_separator() {
    let buffer = b"POST / HTTP/1.1\r\nHost: x\r\n{\"a\":1}";
    assert_eq!(parsed(buffer), (Method::POST, "/".to_string(), None));
    let buffer = b"POST / HTTP/1.1\r\nHost: x\r\n\r\n";
    assert_eq!(parsed(buffer), (Method::POST, "/".to_string(), None));
}

#[test]
fn empty_line_after_the_separator_is_no_body() {
    let buffer = b"POST / HTTP/1.1\r\n\r\n\r\nlate";
    assert_eq!(parsed(buffer), (Method::POST, "/".to_string(), None));
}

#[test]
fn carriage_return_alone_ends_no_line() {
    let buffer = b"POST / HTTP/1.1\n\rx\n\nbody";
    assert_eq!(parsed(buffer), (Method::POST, "/".to_string(), Some("body".to_string())));
    let buffer = b"POST / HTTP/1.1\n\na\rb";
    assert_eq!(parsed(buffer), (Method::POST, "/".to_string(), Some("a\rb".to_string())));
}

#[test]
fn buffer_filled_up_with_spaces() {
    let mut buffer = [b' '; BUF_SIZE];
    let request = b"GET /hello/world HTTP/1.1\r\nAccept: */*\r\n\r\n[1, 2]";
    buffer[..request.len()].copy_from_slice(request);
    assert_eq!(
        parsed(&buffer),
        (Method::GET, "/hello/world".to_string(), Some("[1, 2]".to_string()))
    );
    assert_eq!(BUF_SIZE, 1024);
}

#[test]
fn trailing_unicode_whitespace_is_dropped() {
    let buffer = "GET / HTTP/1.1\u{2003}\u{3000}\u{85}\u{a0}\r\n".as_bytes();
    assert_eq!(parsed(buffer), (Method::GET, "/".to_string(), None));
}

#[test]
fn parser_agrees_with_the_string_functions_of_std() {
    let pieces: [&str; 14] = [
        "GET", "POST", "FOO", " ", "/", "/a", " HTTP/1.1", " HTTP/1.0", "\r", "\n", "\r\n",
        "x: y", "{\"k\":\"\u{e9}\"}", "\u{2003}",
    ];
    let mut state: u64 = 0x2545F4914F6CDD1D;
    for _ in 0..20000 {
        let mut text = String::new();
        let count = {
            state ^= state << 13;
            state ^= state >> 7;
            state ^= state << 17;
            1 + (state % 9) as usize
        };
        for _ in 0..count {
            state ^= state << 13;
            state ^= state >> 7;
            state ^= state << 17;
            text.push_str(pieces[(state % 14) as usize]);
        }
        let expected = reference(text.as_bytes());
        match parse_stream(text.as_bytes()) {
            Ok((method, path, request)) => {
                let body = request.body.as_ref().map(|json| json.response_format().to_string());
                assert_eq!(
                    Some((method.to_string(), path.to_string(), body)),
                    expected,
                    "on {:?}",
                    text
                );
            }
            Err(_) => assert_eq!(None, expected, "on {:?}", text),
        }
    }
}
