use websrv_rs::{
    completion_response, method_is_get, ok_response, split_request_line, Builder, Host, NoHost,
    Server, Status, DEFAULT_POOL_SIZE,
};

type Handler = fn(&str) -> Option<String>;

fn hello(peer: &str) -> Option<String> {
    Some(format!("Hello, {peer}"))
}

fn html(_peer: &str) -> Option<String> {
    Some(String::from("<html></html>"))
}

fn test(_peer: &str) -> Option<String> {
    Some(String::from("Test"))
}

fn broken(_peer: &str) -> Option<String> {
    None
}

fn scenario_server() -> Server<Handler> {
    Builder::<NoHost, Handler>::default()
        .set_pool_size(10)
        .add_host("127.0.0.1:3002")
        .add_route("/", hello as Handler)
        .add_route("/html", html as Handler)
        .add_route("/test", test as Handler)
        .build()
}

fn respond(server: &Server<Handler>, line: Option<&str>) -> Vec<u8> {
    match server.dispatch(line) {
        Ok(h) => {
            let body = h("127.0.0.1:5555");
            completion_response(body.as_ref().map(|b| b.as_bytes()))
        }
        Err(s) => s.response(),
    }
}

#[test]
fn scenario_get_test_route() {
    let server = scenario_server();
    assert_eq!(server.host(), "127.0.0.1:3002");
    assert_eq!(server.pool_size(), 10);
    assert_eq!(
        respond(&server, Some("GET /test HTTP/1.1")),
        b"HTTP/1.1 200 OK\r\nContent-Length: 4\r\n\r\nTest".to_vec()
    );
}

#[test]
fn scenario_get_missing_route() {
    let server = scenario_server();
    assert_eq!(
        respond(&server, Some("GET /missing HTTP/1.1")),
        b"HTTP/1.1 404 NOT FOUND\r\n\r\n".to_vec()
    );
}

#[test]
fn scenario_post_test_route() {
    let server = scenario_server();
    assert_eq!(
        respond(&server, Some("POST /test HTTP/1.1")),
        b"HTTP/1.1 405 Method Not Allowed\r\n\r\n".to_vec()
    );
}

#[test]
fn root_route_echoes_peer() {
    let server = scenario_server();
    assert_eq!(
        respond(&server, Some("GET / HTTP/1.1")),
        b"HTTP/1.1 200 OK\r\nContent-Length: 21\r\n\r\nHello, 127.0.0.1:5555".to_vec()
    );
}

#[test]
fn registered_get_reports_body_length() {
    let server = scenario_server();
    let r = respond(&server, Some("GET /html HTTP/1.1"));
    assert_eq!(r, b"HTTP/1.1 200 OK\r\nContent-Length: 13\r\n\r\n<html></html>".to_vec());
}

#[test]
fn get_in_any_case_is_served() {
    let server = scenario_server();
    for line in ["get /test HTTP/1.1", "Get /test", "gEt /test x y", "GET /test"] {
        assert!(matches!(server.dispatch(Some(line)), Ok(_)), "{line}");
    }
}

#[test]
fn other_methods_in_any_case_are_refused() {
    let server = scenario_server();
    for line in ["post /test HTTP/1.1", "POST /missing", "Post /", "PUT /html", "GETS /test", "GE /test"] {
        assert_eq!(server.dispatch(Some(line)).err(), Some(Status::MethodNotAllowed), "{line}");
    }
}

#[test]
fn no_line_is_bad_request() {
    let server = scenario_server();
    assert_eq!(respond(&server, None), b"HTTP/1.1 400 BAD REQUEST\r\n\r\n".to_vec());
}

#[test]
fn line_without_path_is_bad_request() {
    let server = scenario_server();
    assert_eq!(server.dispatch(Some("GET")).err(), Some(Status::BadRequest));
    assert_eq!(server.dispatch(Some("")).err(), Some(Status::BadRequest));
    assert_eq!(server.dispatch(Some("POST")).err(), Some(Status::BadRequest));
}

#[test]
fn path_is_compared_exactly() {
    let server = scenario_server();
    assert_eq!(server.dispatch(Some("GET /test/ HTTP/1.1")).err(), Some(Status::NotFound));
    assert_eq!(server.dispatch(Some("GET /Test HTTP/1.1")).err(), Some(Status::NotFound));
    assert_eq!(server.dispatch(Some("GET  /test")).err(), Some(Status::NotFound));
}

#[test]
fn failed_handler_gives_server_error() {
    let server = Builder::<NoHost, Handler>::default()
        .add_host("localhost:80")
        .add_route("/broken", broken as Handler)
        .build();
    assert_eq!(
        respond(&server, Some("GET /broken HTTP/1.1")),
        b"HTTP/1.1 500 Internal Server Error\r\n\r\n".to_vec()
    );
}

#[test]
fn later_route_replaces_earlier() {
    let server = Builder::<NoHost, Handler>::default()
        .add_host("localhost:80")
        .add_route("/x", html as Handler)
        .add_route("/x", test as Handler)
        .build();
    assert_eq!(
        respond(&server, Some("GET /x")),
        b"HTTP/1.1 200 OK\r\nContent-Length: 4\r\n\r\nTest".to_vec()
    );
}

#[test]
fn default_pool_size_is_five() {
    let b = Builder::<NoHost, Handler>::default();
    assert_eq!(b.pool_size(), 5);
    assert_eq!(DEFAULT_POOL_SIZE, 5);
    let server = b.add_host("h:1").build();
    assert_eq!(server.pool_size(), 5);
}

#[test]
fn pool_size_can_be_set_after_host() {
    let b: Builder<Host, Handler> = Builder::<NoHost, Handler>::default().add_host("h:1").set_pool_size(3);
    assert_eq!(b.pool_size(), 3);
    assert_eq!(b.build().pool_size(), 3);
}

#[test]
fn ok_response_exact_bytes() {
    assert_eq!(ok_response(b""), b"HTTP/1.1 200 OK\r\nContent-Length: 0\r\n\r\n".to_vec());
    let body = vec![b'a'; 1234];
    let mut expected = b"HTTP/1.1 200 OK\r\nContent-Length: 1234\r\n\r\n".to_vec();
    expected.extend_from_slice(&body);
    assert_eq!(ok_response(&body), expected);
    let ten = vec![b'z'; 10];
    assert_eq!(ok_response(&ten)[33..37].to_vec(), b"10\r\n".to_vec());
}

#[test]
fn status_responses_exact_bytes() {
    assert_eq!(Status::BadRequest.response(), b"HTTP/1.1 400 BAD REQUEST\r\n\r\n".to_vec());
    assert_eq!(Status::NotFound.response(), b"HTTP/1.1 404 NOT FOUND\r\n\r\n".to_vec());
    assert_eq!(Status::MethodNotAllowed.response(), b"HTTP/1.1 405 Method Not Allowed\r\n\r\n".to_vec());
    assert_eq!(
        Status::InternalServerError.response(),
        b"HTTP/1.1 500 Internal Server Error\r\n\r\n".to_vec()
    );
}

#[test]
fn split_request_line_tokens() {
    let (m, t) = split_request_line(b"GET /a/b HTTP/1.1").unwrap();
    assert_eq!(m, b"GET");
    assert_eq!(t, b"/a/b");
    let (m, t) = split_request_line(b"DELETE /x").unwrap();
    assert_eq!(m, b"DELETE");
    assert_eq!(t, b"/x");
    let (m, t) = split_request_line(b" /x").unwrap();
    assert_eq!(m, b"");
    assert_eq!(t, b"/x");
    assert!(split_request_line(b"GET").is_none());
}

#[test]
fn method_is_get_ignores_case_only() {
    assert!(method_is_get(b"GET"));
    assert!(method_is_get(b"get"));
    assert!(method_is_get(b"gEt"));
    assert!(!method_is_get(b"GE"));
    assert!(!method_is_get(b"GETT"));
    assert!(!method_is_get(b"POST"));
    assert!(!method_is_get(b"G3T"));
}
