//! Responses and their form on the wire.

use crate::components::json::JSON;
use crate::components::status::Status;
use crate::context::Context;
use crate::utils::date::{current_date, is_date, stamp};
use crate::utils::text::{decimal, to_decimal};
use vstd::prelude::*;
use vstd::string::*;
use vstd::utf8::encode_utf8;

verus! {

/// The body of a response: a structured payload in encoded form, or plain text.
#[allow(non_camel_case_types)]
#[derive(Debug)]
pub enum Body {
    json(JSON),
    text(String),
}

/// What a body holds.
pub enum BodyView {
    Json(Seq<char>),
    Text(Seq<char>),
}

impl BodyView {
    /// The text that goes on the wire.
    pub open spec fn content(self) -> Seq<char> {
        match self {
            BodyView::Json(text) => text,
            BodyView::Text(text) => text,
        }
    }
}

impl View for Body {
    type V = BodyView;

    open spec fn view(&self) -> BodyView {
        match self {
            Body::json(json) => BodyView::Json(json@),
            Body::text(text) => BodyView::Text(text@),
        }
    }
}

impl Body {
    /// Returns the number of bytes that the body takes on the wire.
    pub fn content_length(&self) -> (n: usize)
        ensures
            n == encode_utf8(self@.content()).len(),
    {
        match self {
            Body::json(json) => json.content_length(),
            Body::text(text) => text.as_str().as_bytes().len(),
        }
    }

    /// Returns the text that goes on the wire.
    pub fn response_format(&self) -> (r: &str)
        ensures
            r@ == self@.content(),
    {
        match self {
            Body::json(json) => json.response_format(),
            Body::text(text) => text.as_str(),
        }
    }
}

/// A status with a body: what a handler returns, and what a failure is.
#[derive(Debug)]
pub struct Response {
    status: Status,
    body: Body,
}

/// What a response holds.
pub struct ResponseView {
    pub status: Status,
    pub body: BodyView,
}

impl View for Response {
    type V = ResponseView;

    closed spec fn view(&self) -> ResponseView {
        ResponseView { status: self.status, body: self.body@ }
    }
}

/// The messages of a failed set-up as one text: the messages in the order in
/// which they were recorded, with a line feed between each two of them.
pub open spec fn joined(messages: Seq<Seq<char>>) -> Seq<char>
    decreases messages.len(),
{
    if messages.len() == 0 {
        Seq::empty()
    } else if messages.len() == 1 {
        messages[0]
    } else {
        joined(messages.drop_last()) + "\n"@ + messages.last()
    }
}

/// The views of the strings of `messages`.
pub open spec fn texts(messages: Seq<String>) -> Seq<Seq<char>> {
    messages.map_values(|m: String| m@)
}

/// The response that stops the set-up with `messages`.
pub open spec fn setup_error(messages: Seq<Seq<char>>) -> ResponseView {
    ResponseView { status: Status::SetUpError, body: BodyView::Text(joined(messages)) }
}

/// The bytes that answer a request with `response` on `date`, as text. A
/// `SetUpError` has none.
pub open spec fn wire_text(response: ResponseView, date: Seq<char>) -> Option<Seq<char>> {
    match response.status.spec_response_format() {
        Some(status_line) => Some(
            "HTTP/1.1 "@ + status_line + "\nContent-Type: "@ + response.status.spec_content_type()
                + "; charset=utf-8\nContent-Length: "@ + decimal(
                encode_utf8(response.body.content()).len(),
            ) + "\nConnection: Keep-Alive\nKeep-Alive: timeout=5\nDate: "@ + date + "\n\n"@
                + response.body.content(),
        ),
        None => None,
    }
}

/// A `SetUpError` has no form on the wire, and every other response has one.
pub proof fn law_only_setup_error_stays_off_the_wire(response: ResponseView, date: Seq<char>)
    ensures
        wire_text(response, date) is None <==> response.status == Status::SetUpError,
{
}

/// The wire form of a response ends in its body, and its `Content-Length` is
/// the number of bytes of that body.
pub proof fn law_wire_form_frames_the_body(response: ResponseView, date: Seq<char>)
    requires
        response.status != Status::SetUpError,
    ensures
        ({
            let text = wire_text(response, date)->Some_0;
            let body = response.body.content();
            let length = "\nContent-Length: "@ + decimal(encode_utf8(body).len()) + "\n"@;
            &&& body.len() <= text.len()
            &&& text.subrange(text.len() - body.len(), text.len() as int) == body
            &&& exists|at: int|
                0 <= at && at + length.len() <= text.len() - body.len() && #[trigger] text.subrange(
                    at,
                    at + length.len(),
                ) == length
        }),
{
    reveal_strlit("\nContent-Length: ");
    reveal_strlit("; charset=utf-8\nContent-Length: ");
    reveal_strlit("\nConnection: Keep-Alive\nKeep-Alive: timeout=5\nDate: ");
    reveal_strlit("\n");
    let text = wire_text(response, date)->Some_0;
    let body = response.body.content();
    let status_line = response.status.spec_response_format()->Some_0;
    let digits = decimal(encode_utf8(body).len());
    let length = "\nContent-Length: "@ + digits + "\n"@;
    let before = "HTTP/1.1 "@ + status_line + "\nContent-Type: "@
        + response.status.spec_content_type();
    let at = (before.len() + "; charset=utf-8"@.len()) as int;
    reveal_strlit("; charset=utf-8");
    assert(text.subrange(text.len() - body.len(), text.len() as int) =~= body);
    assert(text.subrange(at, at + length.len()) =~= length);
}

/// Whether two line feeds in a row begin at `i` in `text`: an empty line.
pub open spec fn is_empty_line(text: Seq<char>, i: int) -> bool {
    0 <= i && i + 1 < text.len() && text[i] == '\n' && text[i + 1] == '\n'
}

/// Whether `text` holds no empty line and does not end in a line feed.
spec fn spaced(text: Seq<char>) -> bool {
    &&& forall|i: int| !is_empty_line(text, i)
    &&& text.len() > 0 ==> text.last() != '\n'
}

/// Two texts without empty line, neither ending in a line feed, make one.
proof fn lemma_spaced_append(a: Seq<char>, b: Seq<char>)
    requires
        spaced(a),
        spaced(b),
    ensures
        spaced(a + b),
{
    assert forall|i: int| !is_empty_line(a + b, i) by {
        if is_empty_line(a + b, i) {
            if i + 1 < a.len() {
                assert(is_empty_line(a, i));
            } else if i >= a.len() {
                assert(is_empty_line(b, i - a.len()));
            } else {
                assert(a.last() == (a + b)[i]);
            }
        }
    }
}

/// A number in base ten holds digits only.
proof fn lemma_decimal_is_spaced(n: nat)
    ensures
        spaced(decimal(n)),
        forall|i: int| 0 <= i < decimal(n).len() ==> #[trigger] decimal(n)[i] != '\n',
    decreases n,
{
    if n >= 10 {
        lemma_decimal_is_spaced(n / 10);
    }
}

/// With a date that holds no line feed, the first empty line of the wire form
/// is the one that ends the headers, and what follows it is the body as it is.
pub proof fn law_body_follows_the_first_empty_line(response: ResponseView, date: Seq<char>)
    requires
        response.status != Status::SetUpError,
        !date.contains('\n'),
    ensures
        ({
            let text = wire_text(response, date)->Some_0;
            let body = response.body.content();
            let at = text.len() - body.len() - 2;
            &&& is_empty_line(text, at)
            &&& forall|i: int| 0 <= i < at ==> !is_empty_line(text, i)
            &&& text.skip(at + 2) == body
        }),
{
    reveal_strlit("HTTP/1.1 ");
    reveal_strlit("200 OK");
    reveal_strlit("400 Bad Request");
    reveal_strlit("404 Not Found");
    reveal_strlit("500 Internal Server Error");
    reveal_strlit("501 Not Implemented");
    reveal_strlit("\nContent-Type: ");
    reveal_strlit("application/json");
    reveal_strlit("text/plain");
    reveal_strlit("; charset=utf-8\nContent-Length: ");
    reveal_strlit("\nConnection: Keep-Alive\nKeep-Alive: timeout=5\nDate: ");
    reveal_strlit("\n\n");
    let body = response.body.content();
    let status_line = response.status.spec_response_format()->Some_0;
    let media = response.status.spec_content_type();
    let digits = decimal(encode_utf8(body).len());
    let a = "HTTP/1.1 "@;
    let c = "\nContent-Type: "@;
    let e = "; charset=utf-8\nContent-Length: "@;
    let g = "\nConnection: Keep-Alive\nKeep-Alive: timeout=5\nDate: "@;
    assert(spaced(a));
    assert(spaced(status_line));
    assert(spaced(c));
    assert(spaced(media));
    assert(spaced(e));
    lemma_decimal_is_spaced(encode_utf8(body).len());
    assert(spaced(g));
    assert(spaced(date)) by {
        if date.len() > 0 {
            assert(date.contains(date.last()));
        }
        assert forall|i: int| !is_empty_line(date, i) by {
            if is_empty_line(date, i) {
                assert(date.contains(date[i]));
            }
        }
    }
    lemma_spaced_append(a, status_line);
    lemma_spaced_append(a + status_line, c);
    lemma_spaced_append(a + status_line + c, media);
    lemma_spaced_append(a + status_line + c + media, e);
    lemma_spaced_append(a + status_line + c + media + e, digits);
    lemma_spaced_append(a + status_line + c + media + e + digits, g);
    lemma_spaced_append(a + status_line + c + media + e + digits + g, date);
    let head = a + status_line + c + media + e + digits + g + date;
    let text = wire_text(response, date)->Some_0;
    assert(text =~= head + "\n\n"@ + body);
    let at = text.len() - body.len() - 2;
    assert(at == head.len());
    assert(text.skip(at + 2) =~= body);
    assert forall|i: int| 0 <= i < at implies !is_empty_line(text, i) by {
        if is_empty_line(text, i) {
            if i + 1 < head.len() {
                assert(is_empty_line(head, i));
            } else {
                assert(head.last() == text[i]);
            }
        }
    }
}

impl Response {
    /// Returns the status.
    pub fn status(&self) -> (s: Status)
        ensures
            s == self@.status,
    {
        self.status
    }

    /// Returns the body.
    pub fn body(&self) -> (b: &Body)
        ensures
            b@ == self@.body,
    {
        &self.body
    }

    /// Returns the response as it goes on the wire when it is sent on `date`:
    /// status line, headers with the exact byte length of the body, an empty line
    /// and the body. A `SetUpError` is never sent: for it the result is `None`.
    pub fn wire_format(&self, date: &str) -> (r: Option<String>)
        ensures
            match wire_text(self@, date@) {
                Some(text) => r is Some && r->Some_0@ == text,
                None => r is None,
            },
    {
        match self.status.response_format() {
            None => None,
            Some(status_line) => {
                let length = to_decimal(self.body.content_length());
                let mut out = String::from_str("HTTP/1.1 ");
                out.append(status_line);
                out.append("\nContent-Type: ");
                out.append(self.status.content_type());
                out.append("; charset=utf-8\nContent-Length: ");
                out.append(length.as_str());
                out.append("\nConnection: Keep-Alive\nKeep-Alive: timeout=5\nDate: ");
                out.append(date);
                out.append("\n\n");
                out.append(self.body.response_format());
                Some(out)
            },
        }
    }

    /// Returns the response as it goes on the wire now, stamped with the date
    /// that the clock shows; on a clock that is set before 1970 or after the year
    /// 9999 that is the first date of 1970. A `SetUpError` is never sent: for it
    /// the result is `None`.
    pub fn to_wire(&self) -> (r: Option<String>)
        ensures
            self@.status == Status::SetUpError <==> r is None,
            r is Some ==> exists|date: Seq<char>|
                is_date(date) && #[trigger] wire_text(self@, date) == Some(r->Some_0@),
            r is Some ==> exists|clock: Option<u64>|
                is_date(#[trigger] stamp(clock)) && wire_text(self@, stamp(clock)) == Some(
                    r->Some_0@,
                ),
    {
        let date = current_date();
        self.wire_format(date.as_str())
    }

    /// Stops the set-up: the failure carries every message, joined by line
    /// feeds.
    #[allow(non_snake_case)]
    pub fn SetUpError(messages: &Vec<String>) -> (r: Context<()>)
        ensures
            r is Err,
            r->Err_0@ == setup_error(texts(messages@)),
    {
        let mut text = String::new();
        let mut i: usize = 0;
        while i < messages.len()
            invariant
                i <= messages.len(),
                text@ == joined(texts(messages@).take(i as int)),
            decreases messages.len() - i,
        {
            proof {
                let done = texts(messages@).take(i as int);
                let next = texts(messages@).take(i + 1);
                assert(next.drop_last() =~= done);
                assert(next.last() == messages@[i as int]@);
                assert(Seq::<char>::empty() + messages@[i as int]@ =~= messages@[i as int]@);
            }
            if i > 0 {
                text.append("\n");
            }
            text.append(messages[i].as_str());
            i += 1;
        }
        assert(texts(messages@).take(i as int) =~= texts(messages@));
        Err(Response { status: Status::SetUpError, body: Body::text(text) })
    }

    /// The successful response with the payload `body`.
    #[allow(non_snake_case)]
    pub fn OK(body: JSON) -> (r: Context<Self>)
        ensures
            r is Ok,
            r->Ok_0@ == (ResponseView { status: Status::OK, body: BodyView::Json(body@) }),
    {
        Ok(Response { status: Status::OK, body: Body::json(body) })
    }

    /// The response that says that nothing answers the request.
    #[allow(non_snake_case)]
    pub fn NotFound(msg: &str) -> (r: Self)
        ensures
            r@ == (ResponseView { status: Status::NotFound, body: BodyView::Text(msg@) }),
    {
        Response { status: Status::NotFound, body: Body::text(String::from_str(msg)) }
    }

    /// The response that says that the request is malformed.
    #[allow(non_snake_case)]
    pub fn BadRequest(msg: &str) -> (r: Self)
        ensures
            r@ == (ResponseView { status: Status::BadRequest, body: BodyView::Text(msg@) }),
    {
        Response { status: Status::BadRequest, body: Body::text(String::from_str(msg)) }
    }

    /// The response that says that the server failed.
    #[allow(non_snake_case)]
    pub fn InternalServerError(msg: &str) -> (r: Self)
        ensures
            r@ == (ResponseView {
                status: Status::InternalServerError,
                body: BodyView::Text(msg@),
            }),
    {
        Response { status: Status::InternalServerError, body: Body::text(String::from_str(msg)) }
    }

    /// The response that says that the request asks for what is not supported.
    #[allow(non_snake_case)]
    pub fn NotImplemented(msg: &str) -> (r: Self)
        ensures
            r@ == (ResponseView { status: Status::NotImplemented, body: BodyView::Text(msg@) }),
    {
        Response { status: Status::NotImplemented, body: Body::text(String::from_str(msg)) }
    }
}

} // verus!
