//! The route table as a mathematical object: keys, registration and the rule
//! that resolves a request to a handler.

use crate::components::method::Method;
use crate::components::status::Status;
use crate::response::{setup_error, BodyView, ResponseView};
use vstd::prelude::*;

verus! {

/// What identifies a registered handler: the method, the static path, and
/// whether one more segment follows the path as a parameter.
pub struct RouteKey {
    pub method: Method,
    pub path: Seq<char>,
    pub has_param: bool,
}

/// The key under which a handler for `pattern` is stored. A pattern whose last
/// segment begins with a colon names a parameter: its key holds what stands
/// before that segment's slash. Any other pattern is its own static path.
pub open spec fn route_key(method: Method, pattern: Seq<char>) -> RouteKey {
    match pattern.index_of_last('/') {
        Some(slash) => if 0 <= slash && slash + 1 < pattern.len() && pattern[slash + 1] == ':' {
            RouteKey { method, path: pattern.subrange(0, slash), has_param: true }
        } else {
            RouteKey { method, path: pattern, has_param: false }
        },
        None => RouteKey { method, path: pattern, has_param: false },
    }
}

/// A route table while it is set up: the handlers by key, and the messages of the
/// conflicts met so far, oldest first.
pub struct TableView<H> {
    pub routes: Map<RouteKey, H>,
    pub errors: Seq<Seq<char>>,
}

/// The table that holds nothing.
pub open spec fn empty_table<H>() -> TableView<H> {
    TableView { routes: Map::empty(), errors: Seq::empty() }
}

/// The message that reports a second handler for the key of `pattern`.
pub open spec fn conflict_message(method: Method, pattern: Seq<char>) -> Seq<char> {
    "handler for `"@ + method.name() + " "@ + pattern + "` is resistered duplicatedly"@
}

/// The table after `handler` was registered for `method` and `pattern`. Where the
/// key is taken, the first handler stays and the conflict is recorded.
pub open spec fn register<H>(
    table: TableView<H>,
    method: Method,
    pattern: Seq<char>,
    handler: H,
) -> TableView<H> {
    let key = route_key(method, pattern);
    if table.routes.contains_key(key) {
        TableView {
            routes: table.routes,
            errors: table.errors.push(conflict_message(method, pattern)),
        }
    } else {
        TableView { routes: table.routes.insert(key, handler), errors: table.errors }
    }
}

/// One call of the registration.
pub struct Registration<H> {
    pub method: Method,
    pub pattern: Seq<char>,
    pub handler: H,
}

impl<H> Registration<H> {
    /// The key that the registration asks for.
    pub open spec fn key(self) -> RouteKey {
        route_key(self.method, self.pattern)
    }
}

/// The table after each of `registrations` was made on `table`, in order.
pub open spec fn register_all<H>(
    table: TableView<H>,
    registrations: Seq<Registration<H>>,
) -> TableView<H>
    decreases registrations.len(),
{
    if registrations.len() == 0 {
        table
    } else {
        let last = registrations.last();
        register(
            register_all(table, registrations.drop_last()),
            last.method,
            last.pattern,
            last.handler,
        )
    }
}

/// How the set-up ends: with the routes where no conflict was recorded, with a
/// `SetUpError` that carries every message otherwise.
pub open spec fn finalize<H>(table: TableView<H>) -> Result<Map<RouteKey, H>, ResponseView> {
    if table.errors.len() > 0 {
        Err(setup_error(table.errors))
    } else {
        Ok(table.routes)
    }
}

/// What a request for a method and a path comes to.
pub enum Resolution<H> {
    /// A handler answers, with this value of the path parameter.
    Handler { handler: H, param: Option<Seq<char>> },
    /// The path is that of a route with a parameter, and the parameter is missing.
    MissingParam,
    /// Nothing is registered for the request.
    NotFound,
}

/// Resolves `method` and `path` against `routes`: the route of exactly this path
/// first; then the route with a parameter whose path stands before the last
/// slash, the parameter being what follows it; then, where the path itself is
/// that of a route with a parameter, the request lacks the parameter.
pub open spec fn resolve<H>(routes: Map<RouteKey, H>, method: Method, path: Seq<char>) -> Resolution<
    H,
> {
    let exact = RouteKey { method, path, has_param: false };
    let verbatim = RouteKey { method, path, has_param: true };
    if routes.contains_key(exact) {
        Resolution::Handler { handler: routes[exact], param: None }
    } else {
        match path.index_of_last('/') {
            Some(slash) => {
                let prefix = RouteKey { method, path: path.subrange(0, slash), has_param: true };
                if routes.contains_key(prefix) {
                    Resolution::Handler {
                        handler: routes[prefix],
                        param: Some(path.subrange(slash + 1, path.len() as int)),
                    }
                } else if routes.contains_key(verbatim) {
                    Resolution::MissingParam
                } else {
                    Resolution::NotFound
                }
            },
            None => if routes.contains_key(verbatim) {
                Resolution::MissingParam
            } else {
                Resolution::NotFound
            },
        }
    }
}

/// The failure of a request that lacks the path parameter of its route.
pub open spec fn expected_parameter() -> ResponseView {
    ResponseView {
        status: Status::BadRequest,
        body: BodyView::Text("expected a path parameter"@),
    }
}

/// The failure of a request that nothing is registered for.
pub open spec fn not_found(method: Method, path: Seq<char>) -> ResponseView {
    ResponseView {
        status: Status::NotFound,
        body: BodyView::Text(
            "handler for `"@ + method.name() + " "@ + path + "` is not found"@,
        ),
    }
}

/// The failure that the dispatcher itself answers with, where no handler does.
pub open spec fn dispatch_failure<H>(
    resolution: Resolution<H>,
    method: Method,
    path: Seq<char>,
) -> Option<ResponseView> {
    match resolution {
        Resolution::Handler { .. } => None,
        Resolution::MissingParam => Some(expected_parameter()),
        Resolution::NotFound => Some(not_found(method, path)),
    }
}

/// A registration leaves every handler that the table holds where it is.
pub proof fn law_registration_keeps_bindings<H>(
    table: TableView<H>,
    method: Method,
    pattern: Seq<char>,
    handler: H,
    key: RouteKey,
)
    requires
        table.routes.contains_key(key),
    ensures
        register(table, method, pattern, handler).routes.contains_key(key),
        register(table, method, pattern, handler).routes[key] == table.routes[key],
{
}

/// A registration for a key that is free binds the key to its handler and
/// records nothing.
pub proof fn law_free_key_is_bound<H>(
    table: TableView<H>,
    method: Method,
    pattern: Seq<char>,
    handler: H,
)
    requires
        !table.routes.contains_key(route_key(method, pattern)),
    ensures
        register(table, method, pattern, handler).routes.contains_key(route_key(method, pattern)),
        register(table, method, pattern, handler).routes[route_key(method, pattern)] == handler,
        register(table, method, pattern, handler).errors == table.errors,
{
}

/// A table of finitely many handlers stays one: a registration for a free key
/// adds one binding, and one for a taken key adds none.
pub proof fn law_registration_counts<H>(
    table: TableView<H>,
    method: Method,
    pattern: Seq<char>,
    handler: H,
)
    requires
        table.routes.dom().finite(),
    ensures
        register(table, method, pattern, handler).routes.dom().finite(),
        register(table, method, pattern, handler).routes.len() == if table.routes.contains_key(
            route_key(method, pattern),
        ) {
            table.routes.len()
        } else {
            table.routes.len() + 1
        },
{
    let key = route_key(method, pattern);
    if !table.routes.contains_key(key) {
        assert(table.routes.insert(key, handler).dom() =~= table.routes.dom().insert(key));
    }
}

/// Two registrations for one key: the first handler stays, the second call
/// records a conflict, and the set-up ends in a `SetUpError` that carries every
/// recorded message.
pub proof fn law_duplicate_registration_is_reported<H>(
    table: TableView<H>,
    method: Method,
    first_pattern: Seq<char>,
    first: H,
    second_pattern: Seq<char>,
    second: H,
)
    requires
        route_key(method, first_pattern) == route_key(method, second_pattern),
    ensures
        ({
            let once = register(table, method, first_pattern, first);
            let twice = register(once, method, second_pattern, second);
            &&& twice.routes == once.routes
            &&& twice.errors == once.errors.push(conflict_message(method, second_pattern))
            &&& finalize(twice) == Err::<Map<RouteKey, H>, ResponseView>(setup_error(twice.errors))
        }),
{
}

/// Conflicts are never forgotten: once a message is recorded, every later table
/// ends the set-up in a `SetUpError`.
pub proof fn law_conflicts_stay<H>(table: TableView<H>, registrations: Seq<Registration<H>>)
    requires
        table.errors.len() > 0,
    ensures
        register_all(table, registrations).errors.len() > 0,
        finalize(register_all(table, registrations)) is Err,
    decreases registrations.len(),
{
    if registrations.len() > 0 {
        law_conflicts_stay(table, registrations.drop_last());
    }
}

/// Of the registrations made on an empty table, the first one for a key binds
/// it, whatever was registered before and whatever is registered after.
pub proof fn law_first_registration_is_bound<H>(registrations: Seq<Registration<H>>, i: int)
    requires
        0 <= i < registrations.len(),
        forall|j: int| 0 <= j < i ==> (#[trigger] registrations[j]).key() != registrations[i].key(),
    ensures
        register_all(empty_table(), registrations).routes.contains_key(registrations[i].key()),
        register_all(empty_table(), registrations).routes[registrations[i].key()]
            == registrations[i].handler,
    decreases registrations.len(),
{
    let before = registrations.drop_last();
    let key = registrations[i].key();
    if i == registrations.len() - 1 {
        lemma_keys_are_registered(before, key);
    } else {
        law_first_registration_is_bound(before, i);
    }
}

/// A key is bound after a run of registrations on an empty table only if one of
/// them asked for it.
proof fn lemma_keys_are_registered<H>(registrations: Seq<Registration<H>>, key: RouteKey)
    requires
        forall|j: int| 0 <= j < registrations.len() ==> (#[trigger] registrations[j]).key() != key,
    ensures
        !register_all(empty_table(), registrations).routes.contains_key(key),
    decreases registrations.len(),
{
    if registrations.len() > 0 {
        lemma_keys_are_registered(registrations.drop_last(), key);
    }
}

/// A request for exactly the path of a route without parameter resolves to the
/// handler of that route, with no parameter.
pub proof fn law_exact_route_resolves<H>(routes: Map<RouteKey, H>, method: Method, path: Seq<char>)
    requires
        routes.contains_key(RouteKey { method, path, has_param: false }),
    ensures
        resolve(routes, method, path) == (Resolution::Handler {
            handler: routes[RouteKey { method, path, has_param: false }],
            param: None,
        }),
        dispatch_failure(resolve(routes, method, path), method, path) is None,
{
}

/// In whatever order handlers are registered on an empty table: a request for
/// the method and the path of a registration without parameter, the first one
/// for its key, resolves to the handler of that registration and is never
/// answered by the dispatcher's own `NotFound` or `BadRequest`.
pub proof fn law_static_route_dispatches_to_its_handler<H>(
    registrations: Seq<Registration<H>>,
    i: int,
)
    requires
        0 <= i < registrations.len(),
        !registrations[i].key().has_param,
        forall|j: int| 0 <= j < i ==> (#[trigger] registrations[j]).key() != registrations[i].key(),
    ensures
        ({
            let routes = register_all(empty_table(), registrations).routes;
            let method = registrations[i].method;
            let path = registrations[i].pattern;
            &&& resolve(routes, method, path) == (Resolution::Handler {
                handler: registrations[i].handler,
                param: None,
            })
            &&& dispatch_failure(resolve(routes, method, path), method, path) is None
        }),
{
    law_first_registration_is_bound(registrations, i);
    let routes = register_all(empty_table(), registrations).routes;
    assert(registrations[i].key() == RouteKey {
        method: registrations[i].method,
        path: registrations[i].pattern,
        has_param: false,
    });
    law_exact_route_resolves(routes, registrations[i].method, registrations[i].pattern);
}

/// A handler is given a parameter only by a route that was registered with one:
/// the request then holds the path of that route, a slash and the parameter. A
/// handler that is given none is that of the route of exactly the path.
pub proof fn law_parameter_comes_from_a_parameter_route<H>(
    routes: Map<RouteKey, H>,
    method: Method,
    path: Seq<char>,
)
    ensures
        match resolve(routes, method, path) {
            Resolution::Handler { handler, param: Some(param) } => exists|prefix: Seq<char>|
                {
                    &&& #[trigger] routes.contains_key(
                        RouteKey { method, path: prefix, has_param: true },
                    )
                    &&& routes[RouteKey { method, path: prefix, has_param: true }] == handler
                    &&& path == prefix + seq!['/'] + param
                    &&& !param.contains('/')
                },
            Resolution::Handler { handler, param: None } => {
                &&& routes.contains_key(RouteKey { method, path, has_param: false })
                &&& routes[RouteKey { method, path, has_param: false }] == handler
            },
            _ => true,
        },
{
    path.index_of_last_ensures('/');
    match resolve(routes, method, path) {
        Resolution::Handler { handler, param: Some(param) } => {
            let slash = path.index_of_last('/')->Some_0;
            let prefix = path.subrange(0, slash);
            assert(path =~= prefix + seq!['/'] + param);
            assert(routes.contains_key(RouteKey { method, path: prefix, has_param: true }));
            if param.contains('/') {
                let i = choose|i: int| 0 <= i < param.len() && param[i] == '/';
                assert(path[slash + 1 + i] == '/');
            }
        },
        _ => {},
    }
}

/// A request for the very path of a route with a parameter lacks the parameter:
/// it fails with `BadRequest`, not with `NotFound`. This holds where no route
/// takes the request first: none without parameter for the same path, and none
/// with a parameter for what stands before the last slash of the path.
pub proof fn law_missing_parameter_is_a_bad_request<H>(
    routes: Map<RouteKey, H>,
    method: Method,
    path: Seq<char>,
)
    requires
        routes.contains_key(RouteKey { method, path, has_param: true }),
        !routes.contains_key(RouteKey { method, path, has_param: false }),
        match path.index_of_last('/') {
            Some(slash) => !routes.contains_key(
                RouteKey { method, path: path.subrange(0, slash), has_param: true },
            ),
            None => true,
        },
    ensures
        resolve(routes, method, path) == Resolution::<H>::MissingParam,
        dispatch_failure(resolve(routes, method, path), method, path) == Some(
            expected_parameter(),
        ),
        expected_parameter().status == Status::BadRequest,
{
}

/// A request whose path ends in one more segment than the path of a route with a
/// parameter, and which no route without parameter matches, resolves to the
/// handler of that route, the segment being the parameter.
pub proof fn law_trailing_segment_is_the_parameter<H>(
    routes: Map<RouteKey, H>,
    method: Method,
    prefix: Seq<char>,
    segment: Seq<char>,
)
    requires
        !segment.contains('/'),
        routes.contains_key(RouteKey { method, path: prefix, has_param: true }),
        !routes.contains_key(
            RouteKey { method, path: prefix + seq!['/'] + segment, has_param: false },
        ),
    ensures
        resolve(routes, method, prefix + seq!['/'] + segment) == (Resolution::Handler {
            handler: routes[RouteKey { method, path: prefix, has_param: true }],
            param: Some(segment),
        }),
{
    let path = prefix + seq!['/'] + segment;
    path.index_of_last_ensures('/');
    assert(path[prefix.len() as int] == '/');
    let slash = path.index_of_last('/')->Some_0;
    if slash > prefix.len() {
        assert(path[slash] == segment[slash - prefix.len() - 1]);
    }
    assert(slash == prefix.len());
    assert(path.subrange(0, slash) =~= prefix);
    assert(path.subrange(slash + 1, path.len() as int) =~= segment);
}

} // verus!
