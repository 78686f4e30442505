//! The server: its set-up, which registers handlers, and the frozen table that
//! answers requests.

use crate::components::method::Method;
use crate::components::json::JSON;
use crate::context::Context;
use crate::request::Request;
use crate::response::{texts, Response};
use crate::route::{
    conflict_message, dispatch_failure, empty_table, finalize, register, resolve, route_key,
    Resolution, RouteKey, TableView,
};
use crate::utils::parse::{parse_stream, request};
use crate::utils::text::{chars, last_index_of};
use crate::utils::validation::{construct_tcp_address, tcp_address};
use vstd::hash_map::StringHashMap;
use vstd::prelude::*;
use vstd::string::*;

verus! {

/// Whether `handler` can be called on every request.
pub open spec fn accepts_all<H: Fn(Request) -> Context<Response>>(handler: H) -> bool {
    forall|request: Request| call_requires(handler, (request,))
}

/// The letter that stands for `method` in a stored key.
spec fn method_mark(method: Method) -> char {
    match method {
        Method::GET => 'G',
        Method::POST => 'P',
        Method::PATCH => 'A',
        Method::DELETE => 'D',
    }
}

/// The sign that stands for the parameter in a stored key.
spec fn param_mark(has_param: bool) -> char {
    if has_param {
        '+'
    } else {
        '-'
    }
}

/// The text under which the handler for `key` is stored: the letter of the
/// method, the sign of the parameter, and the path.
spec fn stored(key: RouteKey) -> Seq<char> {
    seq![method_mark(key.method), param_mark(key.has_param)] + key.path
}

/// No two keys are stored under one text.
proof fn lemma_stored_is_injective(a: RouteKey, b: RouteKey)
    requires
        stored(a) == stored(b),
    ensures
        a == b,
{
    assert(stored(a)[0] == method_mark(a.method) && stored(b)[0] == method_mark(b.method));
    assert(stored(a)[1] == param_mark(a.has_param) && stored(b)[1] == param_mark(b.has_param));
    assert(stored(a).skip(2) =~= a.path);
    assert(stored(b).skip(2) =~= b.path);
}

/// The handlers of `map` by key.
spec fn table_of<H>(map: Map<Seq<char>, H>) -> Map<RouteKey, H> {
    Map::new(|key: RouteKey| map.contains_key(stored(key)), |key: RouteKey| map[stored(key)])
}

/// Whether every handler of `map` can be called on every request.
spec fn callable<H: Fn(Request) -> Context<Response>>(map: Map<Seq<char>, H>) -> bool {
    forall|text: Seq<char>| map.contains_key(text) ==> accepts_all(#[trigger] map[text])
}

/// A handler stored under the text of a key is bound to that key, and to no
/// other.
proof fn lemma_table_of_insert<H>(map: Map<Seq<char>, H>, key: RouteKey, handler: H)
    ensures
        table_of(map.insert(stored(key), handler)) == table_of(map).insert(key, handler),
{
    let grown = map.insert(stored(key), handler);
    assert forall|other: RouteKey| #[trigger]
        table_of(grown).contains_key(other) <==> table_of(map).insert(key, handler).contains_key(
            other,
        ) by {
        if stored(other) == stored(key) {
            lemma_stored_is_injective(other, key);
        }
    }
    assert forall|other: RouteKey| #[trigger] table_of(grown).contains_key(other) implies table_of(
        grown,
    )[other] == table_of(map).insert(key, handler)[other] by {
        if stored(other) == stored(key) {
            lemma_stored_is_injective(other, key);
        }
    }
    assert(table_of(grown) =~= table_of(map).insert(key, handler));
}

/// Returns the text under which the handler for the key is stored.
fn stored_key(method: Method, has_param: bool, path: &str) -> (r: String)
    ensures
        r@ == stored(RouteKey { method, path: path@, has_param }),
{
    proof {
        reveal_strlit("G+");
        reveal_strlit("G-");
        reveal_strlit("P+");
        reveal_strlit("P-");
        reveal_strlit("A+");
        reveal_strlit("A-");
        reveal_strlit("D+");
        reveal_strlit("D-");
    }
    let marks = match method {
        Method::GET => if has_param {
            "G+"
        } else {
            "G-"
        },
        Method::POST => if has_param {
            "P+"
        } else {
            "P-"
        },
        Method::PATCH => if has_param {
            "A+"
        } else {
            "A-"
        },
        Method::DELETE => if has_param {
            "D+"
        } else {
            "D-"
        },
    };
    assert(marks@ =~= seq![method_mark(method), param_mark(has_param)]);
    String::from_str(marks).concat(path)
}

/// Splits a pattern into the static path and the mark of a parameter.
fn split_pattern<'a>(method: Method, pattern: &'a str) -> (r: (&'a str, bool))
    ensures
        route_key(method, pattern@) == (RouteKey { method, path: r.0@, has_param: r.1 }),
{
    let text = chars(pattern);
    let length = text.len();
    match last_index_of(&text, '/') {
        Some(slash) => {
            if slash + 1 < length && text[slash + 1] == ':' {
                (pattern.substring_char(0, slash), true)
            } else {
                (pattern, false)
            }
        },
        None => (pattern, false),
    }
}

/// The set-up of a server: the handlers registered so far, found by hashing
/// their keys, and the conflicts met on the way.
#[verifier::reject_recursive_types(H)]
pub struct ServerSetting<H> {
    routes: StringHashMap<H>,
    errors: Vec<String>,
}

impl<H> View for ServerSetting<H> {
    type V = TableView<H>;

    closed spec fn view(&self) -> TableView<H> {
        TableView { routes: table_of(self.routes@), errors: texts(self.errors@) }
    }
}

/// A server whose table is frozen: it resolves requests and calls handlers.
#[verifier::reject_recursive_types(H)]
pub struct Server<'s, H> {
    routes: &'s StringHashMap<H>,
}

impl<'s, H> View for Server<'s, H> {
    type V = Map<RouteKey, H>;

    closed spec fn view(&self) -> Map<RouteKey, H> {
        table_of(self.routes@)
    }
}

/// What a request comes to, with the handler and the parameter at hand.
pub enum Match<'s, 'p, H> {
    /// A handler answers, with this value of the path parameter.
    Handler { handler: &'s H, param: Option<&'p str> },
    /// The path is that of a route with a parameter, and the parameter is missing.
    MissingParam,
    /// Nothing is registered for the request.
    NotFound,
}

impl<'s, 'p, H> View for Match<'s, 'p, H> {
    type V = Resolution<H>;

    open spec fn view(&self) -> Resolution<H> {
        match self {
            Match::Handler { handler, param } => Resolution::Handler {
                handler: **handler,
                param: match param {
                    Some(param) => Some(param@),
                    None => None,
                },
            },
            Match::MissingParam => Resolution::MissingParam,
            Match::NotFound => Resolution::NotFound,
        }
    }
}

/// Whether `outcome` is what `handler` may return for a request with the path
/// parameter `param` and the body `body`.
pub open spec fn handled<H: Fn(Request) -> Context<Response>>(
    handler: H,
    param: Option<Seq<char>>,
    body: Option<JSON>,
    outcome: Context<Response>,
) -> bool {
    exists|passed: Request|
        passed@.param == param && passed.body == body && #[trigger] call_ensures(
            handler,
            (passed,),
            outcome,
        )
}

/// Whether `outcome` answers a request for `method` and `path` with the body
/// `body` on the table `routes`: what the resolved handler returns, unchanged, or
/// the dispatcher's own failure where no handler is found.
pub open spec fn dispatched<H: Fn(Request) -> Context<Response>>(
    routes: Map<RouteKey, H>,
    method: Method,
    path: Seq<char>,
    body: Option<JSON>,
    outcome: Context<Response>,
) -> bool {
    match resolve(routes, method, path) {
        Resolution::Handler { handler, param } => handled(handler, param, body, outcome),
        failure => outcome is Err && Some(outcome->Err_0@) == dispatch_failure(
            failure,
            method,
            path,
        ),
    }
}

/// Whether `response` answers the bytes `bytes` of a connection on the table
/// `routes`: the failure of the parser where the bytes are no request, and
/// otherwise what the dispatcher comes to, be it a success or a failure.
pub open spec fn answered<H: Fn(Request) -> Context<Response>>(
    routes: Map<RouteKey, H>,
    bytes: Seq<u8>,
    response: Response,
) -> bool {
    match request(bytes) {
        Err(failure) => response@ == failure,
        Ok(parsed) => exists|body: Option<JSON>, outcome: Context<Response>|
            {
                &&& match body {
                    Some(json) => parsed.body == Some(json@),
                    None => parsed.body is None,
                }
                &&& #[trigger] dispatched(routes, parsed.method, parsed.path, body, outcome)
                &&& match outcome {
                    Ok(success) => response == success,
                    Err(failure) => response == failure,
                }
            },
    }
}

impl<'s, H: Fn(Request) -> Context<Response>> Server<'s, H> {
    /// Whether the table is valid: it holds finitely many handlers, and every
    /// one of them can be called on every request.
    pub closed spec fn wf(&self) -> bool {
        callable(self.routes@) && table_of(self.routes@).dom().finite()
    }

    /// A valid table binds finitely many keys.
    pub proof fn lemma_routes_are_finite(&self)
        requires
            self.wf(),
        ensures
            self@.dom().finite(),
    {
    }

    /// Begins the set-up of a server: nothing is registered and nothing has gone
    /// wrong.
    pub fn setup() -> (setting: ServerSetting<H>)
        ensures
            setting.wf(),
            setting@ == empty_table::<H>(),
    {
        let setting = ServerSetting { routes: StringHashMap::new(), errors: Vec::new() };
        assert(setting@.routes =~= Map::<RouteKey, H>::empty());
        assert(setting@.errors =~= Seq::<Seq<char>>::empty());
        setting
    }

    /// Ends the set-up. Where conflicts were recorded, the result is a
    /// `SetUpError` that carries every message; otherwise the table is frozen.
    pub fn build(setting: &'s ServerSetting<H>) -> (r: Context<Self>)
        requires
            setting.wf(),
        ensures
            match finalize(setting@) {
                Ok(routes) => r is Ok && r->Ok_0@ == routes && r->Ok_0.wf(),
                Err(failure) => r is Err && r->Err_0@ == failure,
            },
    {
        if setting.errors.len() > 0 {
            match Response::SetUpError(&setting.errors) {
                Err(failure) => {
                    return Err(failure);
                },
                Ok(_) => {},
            }
        }
        Ok(Server { routes: &setting.routes })
    }

    /// Resolves a request to a handler: the route of exactly this path first;
    /// then the route with a parameter whose path stands before the last slash;
    /// then, where the path itself is that of a route with a parameter, the
    /// parameter is missing.
    pub fn resolve<'p>(&self, method: Method, path: &'p str) -> (found: Match<'s, 'p, H>)
        requires
            self.wf(),
        ensures
            found@ == crate::route::resolve(self@, method, path@),
            found matches Match::Handler { handler, .. } ==> accepts_all(*handler),
    {
        let routes: &'s StringHashMap<H> = self.routes;
        let exact = stored_key(method, false, path);
        match routes.get(exact.as_str()) {
            Some(handler) => {
                return Match::Handler { handler, param: None };
            },
            None => {},
        }
        let text = chars(path);
        let length = text.len();
        match last_index_of(&text, '/') {
            Some(slash) => {
                let prefix = stored_key(method, true, path.substring_char(0, slash));
                match routes.get(prefix.as_str()) {
                    Some(handler) => {
                        let param = path.substring_char(slash + 1, length);
                        return Match::Handler { handler, param: Some(param) };
                    },
                    None => {},
                }
            },
            None => {},
        }
        let verbatim = stored_key(method, true, path);
        if routes.contains_key(verbatim.as_str()) {
            Match::MissingParam
        } else {
            Match::NotFound
        }
    }

    /// Answers a request: calls the handler that the request resolves to and
    /// hands its result on unchanged. The handler of a route with a parameter
    /// sees the trailing segment as the parameter, any other handler sees none.
    /// Where no handler is found the failure is `BadRequest` for a missing
    /// parameter and `NotFound` otherwise.
    pub fn handle_request<'p>(&self, method: Method, path_str: &'p str, request: Request<'p>) -> (outcome:
        Context<Response>)
        requires
            self.wf(),
        ensures
            dispatched(self@, method, path_str@, request.body, outcome),
    {
        match self.resolve(method, path_str) {
            Match::Handler { handler, param } => {
                let passed = Request { param, body: request.body };
                let outcome = handler(passed);
                assert(handled(*handler, passed@.param, request.body, outcome));
                outcome
            },
            Match::MissingParam => Err(Response::BadRequest("expected a path parameter")),
            Match::NotFound => {
                let mut message = String::from_str("handler for `");
                message.append(method.as_str());
                message.append(" ");
                message.append(path_str);
                message.append("` is not found");
                Err(Response::NotFound(message.as_str()))
            },
        }
    }

    /// Answers the bytes that one read from a connection gave: the request is
    /// parsed and dispatched, and whatever comes of it, success or failure, is the
    /// response.
    pub fn respond(&self, buffer: &[u8]) -> (response: Response)
        requires
            self.wf(),
        ensures
            answered(self@, buffer@, response),
    {
        match parse_stream(buffer) {
            Err(failure) => failure,
            Ok((method, path, request)) => {
                let ghost body = request.body;
                let outcome = self.handle_request(method, path, request);
                assert(dispatched(self@, method, path@, body, outcome));
                match outcome {
                    Ok(success) => success,
                    Err(failure) => failure,
                }
            },
        }
    }
}

impl<H: Fn(Request) -> Context<Response>> ServerSetting<H> {
    /// Whether the set-up is valid: it holds finitely many handlers, and every
    /// one of them can be called on every request.
    pub closed spec fn wf(&self) -> bool {
        callable(self.routes@) && table_of(self.routes@).dom().finite()
    }

    /// A valid set-up binds finitely many keys.
    pub proof fn lemma_routes_are_finite(&self)
        requires
            self.wf(),
        ensures
            self@.routes.dom().finite(),
    {
    }

    /// Ends the set-up for a server on `address`. Where conflicts were recorded
    /// the result is a `SetUpError` that carries every message, and nothing is to
    /// be bound. Otherwise the result is the frozen table with the host and port
    /// to bind.
    pub fn serve_on(&self, address: &str) -> (r: Context<(Server<'_, H>, String)>)
        requires
            self.wf(),
        ensures
            match finalize(self@) {
                Ok(routes) => r is Ok && r->Ok_0.0@ == routes && r->Ok_0.0.wf() && r->Ok_0.1@
                    == tcp_address(address@),
                Err(failure) => r is Err && r->Err_0@ == failure,
            },
    {
        match Server::build(self) {
            Ok(server) => Ok((server, construct_tcp_address(address))),
            Err(failure) => Err(failure),
        }
    }

    /// Registers `handler` for `method` and `path_string`. A pattern whose last
    /// segment begins with a colon is stored under what stands before that
    /// segment, as a route with a parameter. Where the key is taken, the first
    /// handler stays and a conflict message is recorded.
    pub fn add_handler(&mut self, method: Method, path_string: &str, handler: H) -> (ret: &mut Self)
        requires
            old(self).wf(),
            accepts_all(handler),
        ensures
            *final(self) == *final(ret),
            ret.wf(),
            ret@ == register(old(self)@, method, path_string@, handler),
    {
        let (path, has_param) = split_pattern(method, path_string);
        let key = stored_key(method, has_param, path);
        if self.routes.contains_key(key.as_str()) {
            let mut message = String::from_str("handler for `");
            message.append(method.as_str());
            message.append(" ");
            message.append(path_string);
            message.append("` is resistered duplicatedly");
            assert(message@ == conflict_message(method, path_string@));
            self.errors.push(message);
            assert(texts(self.errors@) =~= texts(old(self).errors@).push(
                conflict_message(method, path_string@),
            ));
        } else {
            proof {
                let key = route_key(method, path_string@);
                lemma_table_of_insert(self.routes@, key, handler);
                assert(table_of(self.routes@).insert(key, handler).dom() =~= table_of(
                    self.routes@,
                ).dom().insert(key));
            }
            self.routes.insert(key, handler);
        }
        self
    }

    /// Registers `handler` for GET requests to `path_string`.
    #[allow(non_snake_case)]
    pub fn GET(&mut self, path_string: &str, handler: H) -> (ret: &mut Self)
        requires
            old(self).wf(),
            accepts_all(handler),
        ensures
            *final(self) == *final(ret),
            ret.wf(),
            ret@ == register(old(self)@, Method::GET, path_string@, handler),
    {
        self.add_handler(Method::GET, path_string, handler)
    }

    /// Registers `handler` for POST requests to `path_string`.
    #[allow(non_snake_case)]
    pub fn POST(&mut self, path_string: &str, handler: H) -> (ret: &mut Self)
        requires
            old(self).wf(),
            accepts_all(handler),
        ensures
            *final(self) == *final(ret),
            ret.wf(),
            ret@ == register(old(self)@, Method::POST, path_string@, handler),
    {
        self.add_handler(Method::POST, path_string, handler)
    }

    /// Registers `handler` for PATCH requests to `path_string`.
    #[allow(non_snake_case)]
    pub fn PATCH(&mut self, path_string: &str, handler: H) -> (ret: &mut Self)
        requires
            old(self).wf(),
            accepts_all(handler),
        ensures
            *final(self) == *final(ret),
            ret.wf(),
            ret@ == register(old(self)@, Method::PATCH, path_string@, handler),
    {
        self.add_handler(Method::PATCH, path_string, handler)
    }

    /// Registers `handler` for DELETE requests to `path_string`.
    #[allow(non_snake_case)]
    pub fn DELETE(&mut self, path_string: &str, handler: H) -> (ret: &mut Self)
        requires
            old(self).wf(),
            accepts_all(handler),
        ensures
            *final(self) == *final(ret),
            ret.wf(),
            ret@ == register(old(self)@, Method::DELETE, path_string@, handler),
    {
        self.add_handler(Method::DELETE, path_string, handler)
    }
}

} // verus!
