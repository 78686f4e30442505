//! The wire format of a request.

use crate::components::json::JSON;
use crate::components::method::{invalid_method_message, parse_method, Method};
use crate::components::status::Status;
use crate::context::Context;
use crate::request::{Request, RequestView};
use crate::response::{BodyView, Response, ResponseView};
use crate::utils::text::{
    chars, ends_with, finishes_with, first_index_from, first_index_of, is_whitespace, lines,
    strip_cr, trim_end, whitespace,
};
use vstd::prelude::*;
use vstd::string::*;
use vstd::utf8::{decode_utf8, valid_utf8};

verus! {

/// What a well-formed request holds: the method, the path and, where it has one,
/// the body in its encoded form.
pub struct ParsedView {
    pub method: Method,
    pub path: Seq<char>,
    pub body: Option<Seq<char>>,
}

/// The failure of a malformed request.
pub open spec fn bad_request(message: Seq<char>) -> ResponseView {
    ResponseView { status: Status::BadRequest, body: BodyView::Text(message) }
}

/// The failure of a request that asks for another protocol than HTTP/1.1.
pub open spec fn unsupported_protocol() -> ResponseView {
    ResponseView {
        status: Status::NotImplemented,
        body: BodyView::Text("I can't handle protocols other than `HTTP/1.1`"@),
    }
}

/// What a request line says: it ends in ` HTTP/1.1`, and before that stand the
/// method, one space and the path.
pub open spec fn request_line(line: Seq<char>) -> Result<(Method, Seq<char>), ResponseView> {
    if line.len() == 0 {
        Err(bad_request("can't find request status line"@))
    } else if !ends_with(line, " HTTP/1.1"@) {
        Err(unsupported_protocol())
    } else {
        let head = line.subrange(0, line.len() - " HTTP/1.1"@.len());
        match head.index_of_first(' ') {
            None => Err(bad_request("invalid request line format"@)),
            Some(space) => match parse_method(head.subrange(0, space)) {
                Ok(method) => Ok((method, head.subrange(space + 1, head.len() as int))),
                Err(failure) => Err(failure),
            },
        }
    }
}

/// The place of the first empty line of `lines` at or after `from`; the number of
/// lines where there is none.
pub open spec fn separator(lines: Seq<Seq<char>>, from: int) -> int
    decreases lines.len() - from,
{
    if from >= lines.len() {
        lines.len() as int
    } else if lines[from].len() == 0 {
        from
    } else {
        separator(lines, from + 1)
    }
}

/// The body of a request with the lines `lines`: the line that follows the first
/// empty line after the request line, unless it is empty too.
pub open spec fn body_of(lines: Seq<Seq<char>>) -> Option<Seq<char>> {
    let after = separator(lines, 1) + 1;
    if after < lines.len() && lines[after].len() > 0 {
        Some(lines[after])
    } else {
        None
    }
}

/// What the bytes read from a connection say. They are decoded as UTF-8 and
/// trailing whitespace is dropped; the first line is the request line, the lines
/// up to the first empty one are headers and are passed over, and the line after
/// it is the body.
pub open spec fn request(bytes: Seq<u8>) -> Result<ParsedView, ResponseView> {
    if !valid_utf8(bytes) {
        Err(bad_request("request is not valid UTF-8"@))
    } else {
        let all = lines(trim_end(decode_utf8(bytes)));
        if all.len() == 0 {
            Err(bad_request("empty request"@))
        } else {
            match request_line(all[0]) {
                Ok((method, path)) => Ok(ParsedView { method, path, body: body_of(all) }),
                Err(failure) => Err(failure),
            }
        }
    }
}

/// Where `a` holds no space, the first space of `a`, a space and `b` is the one
/// in the middle.
proof fn lemma_first_space(a: Seq<char>, b: Seq<char>)
    requires
        !a.contains(' '),
    ensures
        (a + seq![' '] + b).index_of_first(' ') == Some(a.len() as int),
{
    let s = a + seq![' '] + b;
    s.index_of_first_ensures(' ');
    assert(s[a.len() as int] == ' ');
    let first = s.index_of_first(' ')->Some_0;
    if first < a.len() {
        assert(a[first] == s[first]);
        assert(a.contains(' '));
    }
}

/// A request line made of the name of a method, a space, a path and ` HTTP/1.1`
/// reads as that method and that path, whatever the path holds.
pub proof fn law_request_line_of_method_and_path(method: Method, path: Seq<char>)
    ensures
        request_line(method.name() + seq![' '] + path + " HTTP/1.1"@) == Ok::<
            (Method, Seq<char>),
            ResponseView,
        >((method, path)),
{
    reveal_strlit("GET");
    reveal_strlit("POST");
    reveal_strlit("PATCH");
    reveal_strlit("DELETE");
    reveal_strlit(" HTTP/1.1");
    let name = method.name();
    let line = name + seq![' '] + path + " HTTP/1.1"@;
    let head = name + seq![' '] + path;
    assert(line.subrange(line.len() - " HTTP/1.1"@.len(), line.len() as int) =~= " HTTP/1.1"@);
    assert(line.subrange(0, line.len() - " HTTP/1.1"@.len()) =~= head);
    assert(!name.contains(' ')) by {
        if name.contains(' ') {
            let i = choose|i: int| 0 <= i < name.len() && name[i] == ' ';
            assert(name[i] == ' ');
        }
    }
    lemma_first_space(name, path);
    assert(head.subrange(0, name.len() as int) =~= name);
    assert(head.subrange(name.len() as int + 1, head.len() as int) =~= path);
    assert("GET"@.len() == 3 && "POST"@.len() == 4 && "PATCH"@.len() == 5 && "DELETE"@.len()
        == 6);
    assert("GET"@[0] == 'G' && "POST"@[0] == 'P');
    assert("PATCH"@[1] == 'A' && "POST"@[1] == 'O');
}

/// A request line whose first word is not the exact name of a method is
/// refused with a `BadRequest` that names the word, whatever follows it.
pub proof fn law_unknown_method_is_refused(token: Seq<char>, path: Seq<char>)
    requires
        !token.contains(' '),
        token != "GET"@,
        token != "POST"@,
        token != "PATCH"@,
        token != "DELETE"@,
    ensures
        request_line(token + seq![' '] + path + " HTTP/1.1"@) == Err::<
            (Method, Seq<char>),
            ResponseView,
        >(bad_request(invalid_method_message(token))),
{
    reveal_strlit(" HTTP/1.1");
    let line = token + seq![' '] + path + " HTTP/1.1"@;
    let head = token + seq![' '] + path;
    assert(line.subrange(line.len() - " HTTP/1.1"@.len(), line.len() as int) =~= " HTTP/1.1"@);
    assert(line.subrange(0, line.len() - " HTTP/1.1"@.len()) =~= head);
    lemma_first_space(token, path);
    assert(head.subrange(0, token.len() as int) =~= token);
}

/// Bytes that hold nothing but whitespace are an empty request.
pub proof fn law_blank_buffer_is_an_empty_request(bytes: Seq<u8>)
    requires
        valid_utf8(bytes),
        forall|i: int|
            0 <= i < decode_utf8(bytes).len() ==> is_whitespace(
                #[trigger] decode_utf8(bytes)[i],
            ),
    ensures
        request(bytes) == Err::<ParsedView, ResponseView>(bad_request("empty request"@)),
{
    lemma_trim_end_of_blank(decode_utf8(bytes));
}

/// Text that holds nothing but whitespace is trimmed to nothing.
proof fn lemma_trim_end_of_blank(s: Seq<char>)
    requires
        forall|i: int| 0 <= i < s.len() ==> is_whitespace(#[trigger] s[i]),
    ensures
        trim_end(s).len() == 0,
    decreases s.len(),
{
    if s.len() > 0 {
        lemma_trim_end_of_blank(s.drop_last());
    }
}

/// Decodes `buffer` with `core::str::from_utf8`: the text that the bytes encode
/// where they are valid UTF-8, and nothing where they are not.
#[verifier::external_body]
fn decode<'a>(buffer: &'a [u8]) -> (r: Option<&'a str>)
    ensures
        match r {
            Some(text) => valid_utf8(buffer@) && text@ == decode_utf8(buffer@),
            None => !valid_utf8(buffer@),
        },
{
    core::str::from_utf8(buffer).ok()
}

/// Returns the length of `text` without its trailing whitespace.
fn trimmed_length(text: &Vec<char>) -> (n: usize)
    ensures
        n <= text@.len(),
        text@.take(n as int) == trim_end(text@),
{
    let mut n: usize = text.len();
    assert(text@.take(n as int) =~= text@);
    while n > 0 && whitespace(text[n - 1])
        invariant
            n <= text@.len(),
            trim_end(text@.take(n as int)) == trim_end(text@),
        decreases n,
    {
        assert(text@.take(n as int).drop_last() =~= text@.take(n - 1));
        n -= 1;
    }
    n
}

/// Finds the line of `text` that begins at `start`: returns where the line ends
/// and where the rest of the text begins.
fn line_at(text: &Vec<char>, start: usize) -> (r: (usize, usize))
    requires
        start < text@.len(),
    ensures
        start <= r.0 <= r.1 <= text@.len(),
        start < r.1,
        lines(text@.skip(start as int)) == seq![text@.subrange(start as int, r.0 as int)] + lines(
            text@.skip(r.1 as int),
        ),
{
    let ghost rest = text@.skip(start as int);
    let length = text.len();
    match first_index_from(text, '\n', start) {
        Some(feed) => {
            let end = if feed > start && text[feed - 1] == '\r' {
                feed - 1
            } else {
                feed
            };
            proof {
                let i = feed - start;
                assert(rest.subrange(0, i) =~= text@.subrange(start as int, feed as int));
                assert(strip_cr(rest.subrange(0, i)) =~= text@.subrange(start as int, end as int));
                assert(rest.subrange(i + 1, rest.len() as int) =~= text@.skip(feed + 1));
            }
            (end, feed + 1)
        },
        None => {
            proof {
                assert(rest =~= text@.subrange(start as int, text@.len() as int));
                assert(text@.skip(text@.len() as int) =~= Seq::<char>::empty());
                assert(lines(Seq::<char>::empty()) =~= Seq::<Seq<char>>::empty());
                assert(seq![rest] =~= seq![rest] + Seq::<Seq<char>>::empty());
            }
            (length, length)
        },
    }
}

/// Reads a request from the bytes that one read from a connection gave.
///
/// The bytes are decoded as UTF-8 and trailing whitespace is dropped. The first
/// line is the request line. The lines up to the first empty one are headers and
/// are passed over. The line after the empty one is the body, unless it is empty.
pub fn parse_stream<'a>(buffer: &'a [u8]) -> (r: Context<(Method, &'a str, Request<'a>)>)
    ensures
        match request(buffer@) {
            Ok(parsed) => r is Ok && r->Ok_0.0 == parsed.method && r->Ok_0.1@ == parsed.path
                && r->Ok_0.2@ == (RequestView { param: None, body: parsed.body }),
            Err(failure) => r is Err && r->Err_0@ == failure,
        },
{
    let decoded = match decode(buffer) {
        Some(decoded) => decoded,
        None => {
            return Err(Response::BadRequest("request is not valid UTF-8"));
        },
    };
    let untrimmed = chars(decoded);
    let trimmed = decoded.substring_char(0, trimmed_length(&untrimmed));
    let text = chars(trimmed);
    let ghost all = lines(text@);
    assert(text@ == trim_end(decode_utf8(buffer@)));
    if text.len() == 0 {
        return Err(Response::BadRequest("empty request"));
    }
    let (line_end, after_line) = line_at(&text, 0);
    assert(text@.skip(0) =~= text@);
    assert(all[0] == text@.subrange(0, line_end as int));
    let (method, path) = match parse_request_line(trimmed.substring_char(0, line_end)) {
        Ok(found) => found,
        Err(failure) => {
            return Err(failure);
        },
    };
    let mut next: usize = after_line;
    let ghost mut passed: int = 1;
    assert(all.skip(1) =~= lines(text@.skip(next as int)));
    while next < text.len()
        invariant
            next <= text@.len(),
            1 <= passed <= all.len(),
            trimmed@ == text@,
            all.skip(passed) == lines(text@.skip(next as int)),
            separator(all, 1) == separator(all, passed),
            request(buffer@) == Ok::<ParsedView, ResponseView>(
                ParsedView { method, path: path@, body: body_of(all) },
            ),
        decreases text@.len() - next,
    {
        let (end, after) = line_at(&text, next);
        assert(all.skip(passed).len() >= 1);
        assert(all[passed] == all.skip(passed)[0]);
        assert(all.skip(passed + 1) =~= all.skip(passed).skip(1));
        assert(all.skip(passed + 1) =~= lines(text@.skip(after as int)));
        if end == next {
            assert(separator(all, passed) == passed);
            if after < text.len() {
                let (body_end, _rest) = line_at(&text, after);
                assert(all.skip(passed + 1).len() >= 1);
                assert(all[passed + 1] == all.skip(passed + 1)[0]);
                if body_end > after {
                    let body = JSON::from_str_unchecked(trimmed.substring_char(after, body_end));
                    return Ok((method, path, Request { param: None, body: Some(body) }));
                }
                return Ok((method, path, Request { param: None, body: None }));
            }
            assert(text@.skip(after as int) =~= Seq::<char>::empty());
            assert(all.skip(passed + 1).len() == 0);
            return Ok((method, path, Request { param: None, body: None }));
        }
        proof {
            passed = passed + 1;
        }
        next = after;
    }
    assert(text@.skip(next as int) =~= Seq::<char>::empty());
    assert(all.skip(passed).len() == 0);
    Ok((method, path, Request { param: None, body: None }))
}

/// Reads a request line.
pub fn parse_request_line<'a>(line: &'a str) -> (r: Context<(Method, &'a str)>)
    ensures
        match request_line(line@) {
            Ok((method, path)) => r is Ok && r->Ok_0.0 == method && r->Ok_0.1@ == path,
            Err(failure) => r is Err && r->Err_0@ == failure,
        },
{
    let text = chars(line);
    if text.len() == 0 {
        return Err(Response::BadRequest("can't find request status line"));
    }
    let suffix = chars(" HTTP/1.1");
    if !finishes_with(&text, &suffix) {
        return Err(Response::NotImplemented("I can't handle protocols other than `HTTP/1.1`"));
    }
    let head = line.substring_char(0, text.len() - suffix.len());
    let head_text = chars(head);
    match first_index_of(&head_text, ' ') {
        None => Err(Response::BadRequest("invalid request line format")),
        Some(space) => {
            let token = head.substring_char(0, space);
            let path = head.substring_char(space + 1, head_text.len());
            match Method::parse(token) {
                Ok(method) => Ok((method, path)),
                Err(failure) => Err(failure),
            }
        },
    }
}

} // verus!
