use mini_http::components::json::JSON;
use mini_http::components::method::Method;
use mini_http::components::status::Status;
use mini_http::context::Context;
use mini_http::request::Request;
use mini_http::response::Response;
use mini_http::server::{Match, Server};

type Handler = fn(Request) -> Context<Response>;

fn hello(_: Request) -> Context<Response> {
    Response::OK(JSON::from_str_unchecked(&serde_json::to_string("hello!").unwrap()))
}

fn other(_: Request) -> Context<Response> {
    Response::OK(JSON::from_str_unchecked("\"other\""))
}

fn echo_param(req: Request) -> Context<Response> {
    match req.param {
        Some(param) => Response::OK(JSON::from_str_unchecked(param)),
        None => Err(Response::InternalServerError("no parameter")),
    }
}

fn echo_body(req: Request) -> Context<Response> {
    let body = req.get_body()?;
    Response::OK(JSON::from_str_unchecked(body.response_format()))
}

fn refuse(_: Request) -> Context<Response> {
    Err(Response::NotImplemented("not yet"))
}

fn text_of(outcome: &Context<Response>) -> (Status, String) {
    match outcome {
        Ok(res) => (res.status(), res.body().response_format().to_string()),
        Err(res) => (res.status(), res.body().response_format().to_string()),
    }
}

fn no_request<'a>() -> Request<'a> {
    Request { param: None, body: None }
}

#[test]
fn duplicate_registration_stops_the_setup() {
    let mut setting = Server::setup();
    setting.GET("/", hello as Handler).GET("/", other as Handler);
    match setting.serve_on(":3000") {
        Ok(_) => panic!("a conflict must stop the set-up"),
        Err(res) => {
            assert_eq!(res.status(), Status::SetUpError);
            assert_eq!(
                res.body().response_format(),
                "handler for `GET /` is resistered duplicatedly"
            );
            assert!(res.to_wire().is_none());
            assert!(res.wire_format("Tue, 1 Jul 2003 10:52:37 +0000").is_none());
        }
    }
}

#[test]
fn every_conflict_is_reported_in_order() {
    let mut setting = Server::setup();
    setting
        .GET("/a", hello as Handler)
        .POST("/b/:id", hello as Handler)
        .GET("/a", other as Handler)
        .POST("/b/:name", other as Handler)
        .GET("/a", other as Handler);
    let failure = match Server::build(&setting) {
        Ok(_) => panic!("conflicts must stop the set-up"),
        Err(res) => res,
    };
    assert_eq!(failure.status(), Status::SetUpError);
    assert_eq!(
        failure.body().response_format(),
        "handler for `GET /a` is resistered duplicatedly\n\
         handler for `POST /b/:name` is resistered duplicatedly\n\
         handler for `GET /a` is resistered duplicatedly"
    );
}

#[test]
fn keys_that_differ_do_not_conflict() {
    let mut setting = Server::setup();
    setting
        .GET("/hello", hello as Handler)
        .POST("/hello", hello as Handler)
        .PATCH("/hello", hello as Handler)
        .DELETE("/hello", hello as Handler)
        .GET("/hello/:name", echo_param as Handler)
        .GET("/hello/", hello as Handler)
        .GET("/Hello", hello as Handler);
    assert!(setting.serve_on("localhost:8080").is_ok());
}

#[test]
fn setup_without_routes_serves() {
    let setting = Server::<Handler>::setup();
    let (server, address) = setting.serve_on("0.0.0.0:80").unwrap();
    assert_eq!(address, "0.0.0.0:80");
    let (status, text) = text_of(&server.handle_request(Method::GET, "/", no_request()));
    assert_eq!(status, Status::NotFound);
    assert_eq!(text, "handler for `GET /` is not found");
}

#[test]
fn root_route_answers_with_the_payload() {
    let mut setting = Server::setup();
    setting.GET("/", hello as Handler);
    let (server, address) = setting.serve_on(":3000").unwrap();
    assert_eq!(address, "127.0.0.1:3000");
    let res = server.respond(b"GET / HTTP/1.1");
    assert_eq!(res.status(), Status::OK);
    let encoded = serde_json::to_string("hello!").unwrap();
    assert_eq!(res.body().response_format(), encoded);
    assert_eq!(res.body().content_length(), encoded.len());
    let wire = res.wire_format("Tue, 1 Jul 2003 10:52:37 +0000").unwrap();
    let mut wire_lines = wire.split('\n');
    assert_eq!(wire_lines.next(), Some("HTTP/1.1 200 OK"));
    assert!(wire.contains(&format!("\nContent-Length: {}\n", encoded.len())));
    assert!(wire.ends_with(&format!("\n\n{}", encoded)));
    assert_eq!(
        wire,
        "HTTP/1.1 200 OK\n\
         Content-Type: application/json; charset=utf-8\n\
         Content-Length: 8\n\
         Connection: Keep-Alive\n\
         Keep-Alive: timeout=5\n\
         Date: Tue, 1 Jul 2003 10:52:37 +0000\n\
         \n\
         \"hello!\""
    );
}

#[test]
fn trailing_segment_is_the_parameter() {
    let mut setting = Server::setup();
    setting.GET("/hello/:name", echo_param as Handler);
    let (server, _) = setting.serve_on(":3000").unwrap();
    let outcome = server.handle_request(Method::GET, "/hello/world", no_request());
    assert_eq!(text_of(&outcome), (Status::OK, "world".to_string()));
    match server.resolve(Method::GET, "/hello/world") {
        Match::Handler { param, .. } => assert_eq!(param, Some("world")),
        _ => panic!("the route with a parameter must answer"),
    }
    let res = server.respond(b"GET /hello/world HTTP/1.1\r\nHost: x\r\n\r\n");
    assert_eq!(res.status(), Status::OK);
    assert_eq!(res.body().response_format(), "world");
}

#[test]
fn parameter_may_be_empty() {
    let mut setting = Server::setup();
    setting.GET("/hello/:name", echo_param as Handler);
    let (server, _) = setting.serve_on(":3000").unwrap();
    let outcome = server.handle_request(Method::GET, "/hello/", no_request());
    assert_eq!(text_of(&outcome), (Status::OK, String::new()));
}

#[test]
fn exact_route_wins_over_parameter() {
    let mut setting = Server::setup();
    setting
        .GET("/hello/:name", echo_param as Handler)
        .GET("/hello/world", other as Handler);
    let (server, _) = setting.serve_on(":3000").unwrap();
    let outcome = server.handle_request(Method::GET, "/hello/world", no_request());
    assert_eq!(text_of(&outcome), (Status::OK, "\"other\"".to_string()));
    let outcome = server.handle_request(Method::GET, "/hello/you", no_request());
    assert_eq!(text_of(&outcome), (Status::OK, "you".to_string()));
}

#[test]
fn exact_route_sees_no_parameter() {
    let mut setting = Server::setup();
    setting.GET("/hello/world", echo_param as Handler);
    let (server, _) = setting.serve_on(":3000").unwrap();
    let request = Request { param: Some("left over"), body: None };
    let outcome = server.handle_request(Method::GET, "/hello/world", request);
    assert_eq!(text_of(&outcome), (Status::InternalServerError, "no parameter".to_string()));
}

#[test]
fn registered_static_routes_resolve_in_any_order() {
    let paths = ["/", "/a", "/a/b", "/hello", "/hello/world", "/x/y/z", "", "plain"];
    let orders: [[usize; 8]; 3] =
        [[0, 1, 2, 3, 4, 5, 6, 7], [7, 6, 5, 4, 3, 2, 1, 0], [3, 0, 6, 1, 7, 4, 2, 5]];
    for order in orders.iter() {
        let mut setting = Server::setup();
        setting.GET("/hello/:name", refuse as Handler).GET("/:any", refuse as Handler);
        for i in order.iter() {
            setting.GET(paths[*i], hello as Handler);
        }
        let (server, _) = setting.serve_on(":3000").unwrap();
        for path in paths.iter() {
            let outcome = server.handle_request(Method::GET, path, no_request());
            assert_eq!(text_of(&outcome), (Status::OK, "\"hello!\"".to_string()));
            assert!(matches!(
                server.resolve(Method::GET, path),
                Match::Handler { param: None, .. }
            ));
        }
    }
}

#[test]
fn missing_parameter_is_a_bad_request() {
    let mut setting = Server::setup();
    setting.GET("/hello/:name", echo_param as Handler);
    let (server, _) = setting.serve_on(":3000").unwrap();
    let outcome = server.handle_request(Method::GET, "/hello", no_request());
    assert_eq!(text_of(&outcome), (Status::BadRequest, "expected a path parameter".to_string()));
    assert!(matches!(server.resolve(Method::GET, "/hello"), Match::MissingParam));
    let res = server.respond(b"GET /hello HTTP/1.1");
    assert_eq!(res.status(), Status::BadRequest);
    assert_eq!(res.body().response_format(), "expected a path parameter");
}

#[test]
fn missing_parameter_on_a_path_without_slash() {
    let mut setting = Server::setup();
    setting.GET("api/:id", echo_param as Handler);
    let (server, _) = setting.serve_on(":3000").unwrap();
    let outcome = server.handle_request(Method::GET, "api", no_request());
    assert_eq!(text_of(&outcome), (Status::BadRequest, "expected a path parameter".to_string()));
    let outcome = server.handle_request(Method::GET, "other", no_request());
    assert_eq!(
        text_of(&outcome),
        (Status::NotFound, "handler for `GET other` is not found".to_string())
    );
}

#[test]
fn shorter_parameter_route_takes_the_request_first() {
    let mut setting = Server::setup();
    setting.GET("/hello/:name", refuse as Handler).GET("/:any", echo_param as Handler);
    let (server, _) = setting.serve_on(":3000").unwrap();
    let outcome = server.handle_request(Method::GET, "/hello", no_request());
    assert_eq!(text_of(&outcome), (Status::OK, "hello".to_string()));
}

#[test]
fn unknown_route_is_not_found() {
    let mut setting = Server::setup();
    setting.GET("/hello/:name", echo_param as Handler).GET("/", hello as Handler);
    let (server, _) = setting.serve_on(":3000").unwrap();
    let outcome = server.handle_request(Method::GET, "/nope", no_request());
    assert_eq!(
        text_of(&outcome),
        (Status::NotFound, "handler for `GET /nope` is not found".to_string())
    );
    let outcome = server.handle_request(Method::POST, "/hello/world", no_request());
    assert_eq!(
        text_of(&outcome),
        (Status::NotFound, "handler for `POST /hello/world` is not found".to_string())
    );
    let outcome = server.handle_request(Method::DELETE, "/hello/a/b", no_request());
    assert_eq!(
        text_of(&outcome),
        (Status::NotFound, "handler for `DELETE /hello/a/b` is not found".to_string())
    );
    assert!(matches!(server.resolve(Method::PATCH, "/"), Match::NotFound));
}

#[test]
fn colon_inside_the_pattern_is_static() {
    let mut setting = Server::setup();
    setting.GET("/a/:b/c", hello as Handler).GET("/a:b", other as Handler);
    let (server, _) = setting.serve_on(":3000").unwrap();
    let outcome = server.handle_request(Method::GET, "/a/:b/c", no_request());
    assert_eq!(text_of(&outcome), (Status::OK, "\"hello!\"".to_string()));
    let outcome = server.handle_request(Method::GET, "/a:b", no_request());
    assert_eq!(text_of(&outcome), (Status::OK, "\"other\"".to_string()));
    let outcome = server.handle_request(Method::GET, "/a/x", no_request());
    assert_eq!(text_of(&outcome).0, Status::NotFound);
}

#[test]
fn failure_of_a_handler_passes_through() {
    let mut setting = Server::setup();
    setting.PATCH("/later", refuse as Handler);
    let (server, _) = setting.serve_on(":3000").unwrap();
    let outcome = server.handle_request(Method::PATCH, "/later", no_request());
    assert!(outcome.is_err());
    assert_eq!(text_of(&outcome), (Status::NotImplemented, "not yet".to_string()));
    let res = server.respond(b"PATCH /later HTTP/1.1\n\n");
    assert_eq!(res.status(), Status::NotImplemented);
}

#[test]
fn body_reaches_the_handler() {
    let mut setting = Server::setup();
    setting.POST("/api/users/signup", echo_body as Handler);
    let (server, _) = setting.serve_on(":8080").unwrap();
    let res = server.respond(
        b"POST /api/users/signup HTTP/1.1\r\nContent-Type: application/json\r\n\r\n{\"name\":\"a\"}",
    );
    assert_eq!(res.status(), Status::OK);
    assert_eq!(res.body().response_format(), "{\"name\":\"a\"}");
    let res = server.respond(b"POST /api/users/signup HTTP/1.1\r\n\r\n");
    assert_eq!(res.status(), Status::BadRequest);
    assert_eq!(res.body().response_format(), "expected request body");
}

#[test]
fn malformed_request_is_answered_not_dispatched() {
    let mut setting = Server::setup();
    setting.GET("/", hello as Handler);
    let (server, _) = setting.serve_on(":3000").unwrap();
    let res = server.respond(b"GET / HTTP/1.0");
    assert_eq!(res.status(), Status::NotImplemented);
    let res = server.respond(b"   ");
    assert_eq!(res.status(), Status::BadRequest);
    assert_eq!(res.body().response_format(), "empty request");
    let res = server.respond(b"FOO / HTTP/1.1");
    assert_eq!(res.status(), Status::BadRequest);
    assert_eq!(res.body().response_format(), "invalid request method: `FOO`");
}

#[test]
fn closures_are_handlers_too() {
    let greeting = String::from("\"hi\"");
    let handler = |_: Request| Response::OK(JSON::from_str_unchecked(&greeting));
    let mut setting = Server::setup();
    setting.GET("/hi", &handler).POST("/hi", &handler);
    let (server, _) = setting.serve_on(":3000").unwrap();
    let outcome = server.handle_request(Method::POST, "/hi", no_request());
    assert_eq!(text_of(&outcome), (Status::OK, "\"hi\"".to_string()));
}

#[test]
fn many_routes_are_found() {
    let paths: Vec<String> = (0..500).map(|i| format!("/item/{}", i)).collect();
    let mut setting = Server::setup();
    for path in paths.iter() {
        setting.GET(path, hello as Handler).POST(&format!("{}/:part", path), echo_param as Handler);
    }
    let (server, _) = setting.serve_on(":3000").unwrap();
    for path in paths.iter() {
        let outcome = server.handle_request(Method::GET, path, no_request());
        assert_eq!(text_of(&outcome), (Status::OK, "\"hello!\"".to_string()));
        let outcome = server.handle_request(Method::POST, &format!("{}/x", path), no_request());
        assert_eq!(text_of(&outcome), (Status::OK, "x".to_string()));
        let outcome = server.handle_request(Method::POST, path, no_request());
        assert_eq!(text_of(&outcome).0, Status::BadRequest);
        let outcome = server.handle_request(Method::DELETE, path, no_request());
        assert_eq!(text_of(&outcome).0, Status::NotFound);
    }
}

#[test]
fn keys_are_told_apart_whatever_the_path_holds() {
    let mut setting = Server::setup();
    setting
        .GET("+", hello as Handler)
        .GET("-", other as Handler)
        .GET("-/:x", echo_param as Handler)
        .POST("+/:x", echo_param as Handler)
        .PATCH("ATCH", hello as Handler);
    let (server, _) = setting.serve_on(":3000").unwrap();
    assert_eq!(
        text_of(&server.handle_request(Method::GET, "+", no_request())),
        (Status::OK, "\"hello!\"".to_string())
    );
    assert_eq!(
        text_of(&server.handle_request(Method::GET, "-", no_request())),
        (Status::OK, "\"other\"".to_string())
    );
    assert_eq!(
        text_of(&server.handle_request(Method::GET, "-/v", no_request())),
        (Status::OK, "v".to_string())
    );
    assert_eq!(text_of(&server.handle_request(Method::GET, "+/v", no_request())).0, Status::NotFound);
    assert_eq!(text_of(&server.handle_request(Method::POST, "+", no_request())).0, Status::BadRequest);
    assert_eq!(text_of(&server.handle_request(Method::POST, "ATCH", no_request())).0, Status::NotFound);
}
