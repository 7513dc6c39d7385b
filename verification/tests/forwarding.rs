use axum_strangler::inner::tracing_opentelemetry_text_map_propagation::{
    check_inject, inject_opentelemetry_context_into_request, RequestCarrier,
};
use axum_strangler::inner::{check_forward, Forwarding, InnerStranglerService};
use axum_strangler::message::{HttpVersion, Request, Response};
use axum_strangler::uri::{Authority, PathAndQuery, Uri};
use axum_strangler::{HttpScheme, Strangler, WebSocketScheme};
use http::{HeaderMap, HeaderValue};

fn authority(text: &str) -> Authority {
    Authority::parse(text).unwrap()
}

fn uri(path_and_query: &str) -> Uri {
    Uri {
        scheme: None,
        authority: None,
        path_and_query: Some(PathAndQuery::parse(path_and_query).unwrap()),
    }
}

fn get(path_and_query: &str) -> Request {
    Request {
        method: "GET".to_string(),
        uri: uri(path_and_query),
        headers: HeaderMap::new(),
        original_uri: None,
        upgradable: false,
    }
}

fn with_header(mut req: Request, name: &'static str, value: &str) -> Request {
    req.headers.append(name, HeaderValue::from_str(value).unwrap());
    req
}

fn field(key: &str, value: &str) -> (String, String) {
    (key.to_string(), value.to_string())
}

fn forward_with(
    strangler: &Strangler,
    req: Request,
    context: Vec<(String, String)>,
) -> Request {
    assert!(check_forward(&req, &context));
    match strangler.forward_to_strangled(req, context) {
        Forwarding::Http(req) => req,
        Forwarding::WebSocket(_) => panic!("not a websocket"),
    }
}

fn forward(strangler: &Strangler, req: Request) -> Request {
    forward_with(strangler, req, vec![])
}

fn scheme(uri: &Uri) -> &str {
    uri.scheme.as_deref().unwrap()
}

fn host(uri: &Uri) -> &str {
    uri.authority.as_ref().unwrap().as_str()
}

fn path(uri: &Uri) -> &str {
    uri.path_and_query.as_ref().unwrap().as_str()
}

fn response(status: u16, headers: HeaderMap) -> Response {
    Response { version: HttpVersion::Http11, status, headers, extended: false }
}

/// An application that answers in memory.
struct MockServer {
    answers: Vec<(&'static str, &'static str, u16, &'static str)>,
}

impl MockServer {
    fn answer(&self, req: &Request) -> (Response, &'static str) {
        assert_eq!(host(&req.uri), "127.0.0.1:3333");
        for (method, at, status, body) in &self.answers {
            if req.method == *method && path(&req.uri) == *at {
                return (response(*status, HeaderMap::new()), *body);
            }
        }
        (response(404, HeaderMap::new()), "")
    }

    fn call(&self, strangler: &Strangler, req: Request) -> (u16, &'static str) {
        let (answer, body) = self.answer(&forward(strangler, req));
        (strangler.answer(answer).status, body)
    }
}

#[test]
fn proxies_strangled_http_service() {
    let mock_server = MockServer {
        answers: vec![("GET", "/api/something", 200, "I'm being strangled")],
    };
    let strangler_svc = Strangler::new(authority("127.0.0.1:3333"));

    let (status, body) = mock_server.call(&strangler_svc, get("/api/something"));

    assert_eq!(status, 200);
    assert_eq!(body, "I'm being strangled");
}

#[test]
fn handles_nested_routers() {
    let mock_server = MockServer {
        answers: vec![
            ("GET", "/api/something", 200, ""),
            ("GET", "/api/something-else", 418, ""),
        ],
    };
    let strangler_svc = Strangler::new(authority("127.0.0.1:3333"));
    let nested = |stripped: &str, original: &str| Request {
        original_uri: Some(uri(original)),
        ..get(stripped)
    };

    let req = nested("/something", "/api/something");
    assert_eq!(mock_server.call(&strangler_svc.clone(), req).0, 200);

    let req = nested("/something-else", "/api/something-else");
    assert_eq!(mock_server.call(&strangler_svc.clone(), req).0, 418);

    let req = nested("/not-api/something-else", "/not-api/something-else");
    assert_eq!(mock_server.call(&strangler_svc, req).0, 404);
}

#[test]
fn target_is_the_strangled_application() {
    let strangler = Strangler::new(authority("example.org"));
    let out = forward(&strangler, get("/a/b?c=d"));
    assert_eq!(scheme(&out.uri), "http");
    assert_eq!(host(&out.uri), "example.org");
    assert_eq!(path(&out.uri), "/a/b?c=d");

    let mut req = get("/a/b?c=d");
    req.uri.scheme = Some("https".to_string());
    req.uri.authority = Some(authority("elsewhere.org"));
    let out = forward(&strangler, req);
    assert_eq!(scheme(&out.uri), "http");
    assert_eq!(host(&out.uri), "example.org");
}

#[test]
fn scheme_follows_the_builder() {
    let strangler = Strangler::builder(authority("example.org"))
        .with_http_scheme(HttpScheme::HTTPS)
        .build();
    assert_eq!(scheme(&forward(&strangler, get("/")).uri), "https");
}

#[test]
fn options_can_be_set_in_any_order() {
    let one = Strangler::builder(authority("example.org"))
        .with_http_scheme(HttpScheme::HTTP)
        .with_http_scheme(HttpScheme::HTTPS)
        .with_web_socket_scheme(WebSocketScheme::WSS)
        .rewrite_strangled_request_host_header(true)
        .build();
    let other = Strangler::builder(authority("example.org"))
        .rewrite_strangled_request_host_header(true)
        .with_web_socket_scheme(WebSocketScheme::WSS)
        .with_http_scheme(HttpScheme::HTTPS)
        .build();
    for strangler in [one, other] {
        let out = forward(&strangler, with_header(get("/"), "host", "me"));
        assert_eq!(scheme(&out.uri), "https");
        assert_eq!(out.headers["host"], "example.org");
    }
}

#[test]
fn method_and_headers_are_passed_along() {
    let strangler = Strangler::new(authority("example.org"));
    let mut req = get("/");
    req.method = "POST".to_string();
    let req = with_header(req, "x-custom", "one");
    let req = with_header(req, "x-custom", "two");
    let req = with_header(req, "host", "me");
    let out = forward(&strangler, req);
    assert_eq!(out.method, "POST");
    let values: Vec<&HeaderValue> = out.headers.get_all("x-custom").iter().collect();
    assert_eq!(values, vec!["one", "two"]);
    assert_eq!(out.headers["host"], "me");
    assert_eq!(out.headers.len(), 3);
}

#[test]
fn order_and_marks_of_headers_are_kept() {
    let strangler = Strangler::new(authority("example.org"));
    let mut req = with_header(get("/"), "x-b", "1");
    let mut secret = HeaderValue::from_static("2");
    secret.set_sensitive(true);
    req.headers.append("authorization", secret);
    let out = forward(&strangler, with_header(req, "x-a", "3"));
    let names: Vec<&str> = out.headers.keys().map(|name| name.as_str()).collect();
    assert_eq!(names, vec!["x-b", "authorization", "x-a"]);
    assert!(out.headers["authorization"].is_sensitive());
}

#[test]
fn rewritten_host_header_is_not_marked() {
    let strangler = Strangler::builder(authority("example.org"))
        .rewrite_strangled_request_host_header(true)
        .build();
    let mut req = get("/");
    let mut host = HeaderValue::from_static("me");
    host.set_sensitive(true);
    req.headers.append("host", host);
    let out = forward(&strangler, req);
    assert_eq!(out.headers["host"], "example.org");
    assert!(!out.headers["host"].is_sensitive());
}

#[test]
fn host_header_is_rewritten_when_asked_for() {
    let strangler = Strangler::builder(authority("user@example.org:8080"))
        .rewrite_strangled_request_host_header(true)
        .build();
    let out = forward(&strangler, with_header(get("/"), "Host", "me"));
    assert_eq!(out.headers["host"], "user@example.org:8080");
    assert_eq!(out.headers.len(), 1);

    let out = forward(&strangler, get("/"));
    assert!(out.headers.is_empty());

    let req = with_header(with_header(get("/"), "host", "me"), "host", "too");
    let out = forward(&strangler, req);
    let values: Vec<&HeaderValue> = out.headers.get_all("host").iter().collect();
    assert_eq!(values, vec!["user@example.org:8080", "too"]);
}

#[test]
fn forwarding_twice_is_forwarding_once() {
    let strangler = Strangler::builder(authority("example.org"))
        .rewrite_strangled_request_host_header(true)
        .build();
    let context = vec![field("traceparent", "00-1-2-01")];
    let once = forward_with(&strangler, with_header(get("/a?b"), "host", "me"), context.clone());
    let headers = once.headers.clone();
    let twice = forward_with(&strangler, once, context);
    assert_eq!(twice.headers, headers);
    assert_eq!(scheme(&twice.uri), "http");
    assert_eq!(host(&twice.uri), "example.org");
    assert_eq!(path(&twice.uri), "/a?b");
}

#[test]
fn clone_decides_alike() {
    let strangler = Strangler::builder(authority("example.org"))
        .with_http_scheme(HttpScheme::HTTPS)
        .rewrite_strangled_request_host_header(true)
        .build();
    let copy = strangler.clone();
    let context = vec![field("traceparent", "00-1-2-01")];
    let req = || with_header(get("/a?b"), "host", "me");
    let out = forward_with(&strangler, req(), context.clone());
    let other = forward_with(&copy, req(), context);
    assert_eq!(out.method, other.method);
    assert_eq!(out.headers, other.headers);
    assert_eq!(scheme(&out.uri), scheme(&other.uri));
    assert_eq!(host(&out.uri), host(&other.uri));
    assert_eq!(path(&out.uri), path(&other.uri));
    for status in [200, 404, 503] {
        assert_eq!(strangler.answer(response(status, HeaderMap::new())).status, status);
        assert_eq!(copy.answer(response(status, HeaderMap::new())).status, status);
    }
}

#[test]
fn last_strangler_decides_the_target() {
    let first = Strangler::new(authority("first.org"));
    let second = Strangler::builder(authority("second.org"))
        .with_http_scheme(HttpScheme::HTTPS)
        .build();
    let out = forward(&second, forward(&first, get("/a")));
    assert_eq!(scheme(&out.uri), "https");
    assert_eq!(host(&out.uri), "second.org");
    assert_eq!(path(&out.uri), "/a");
}

#[test]
fn tracing_context_is_set_on_the_request() {
    let strangler = Strangler::new(authority("example.org"));
    let req = with_header(get("/"), "traceparent", "old");
    let req = with_header(req, "traceparent", "older");
    let req = with_header(req, "x-custom", "kept");
    let context = vec![
        field("TraceParent", "first"),
        field("tracestate", "state"),
        field("traceparent", "last"),
    ];
    let out = forward_with(&strangler, req, context);
    let values: Vec<&HeaderValue> = out.headers.get_all("traceparent").iter().collect();
    assert_eq!(values, vec!["last"]);
    assert_eq!(out.headers["tracestate"], "state");
    assert_eq!(out.headers["x-custom"], "kept");
    assert_eq!(out.headers.len(), 3);
}

#[test]
fn carrier_sets_one_field() {
    let mut req = with_header(get("/"), "x-custom", "kept");
    RequestCarrier::new(&mut req).set("X-Trace", "caf\u{e9}".to_string());
    assert_eq!(req.headers["x-trace"].as_bytes(), "caf\u{e9}".as_bytes());
    assert_eq!(req.headers["x-custom"], "kept");
}

#[test]
fn last_field_counts() {
    let mut twice = with_header(get("/"), "x-trace", "old");
    RequestCarrier::new(&mut twice).set("X-Trace", "earlier".to_string());
    RequestCarrier::new(&mut twice).set("x-tRACE", "later".to_string());
    let mut once = with_header(get("/"), "x-trace", "old");
    RequestCarrier::new(&mut once).set("x-trace", "later".to_string());
    assert_eq!(twice.headers, once.headers);
    assert_eq!(twice.headers.len(), 1);
}

#[test]
fn injecting_nothing_changes_nothing() {
    let req = with_header(get("/a"), "x-custom", "kept");
    let out = inject_opentelemetry_context_into_request(req, vec![]);
    assert_eq!(out.headers.len(), 1);
    assert_eq!(out.headers["x-custom"], "kept");
}

#[test]
fn unfit_context_is_noticed() {
    let headers = HeaderMap::new();
    assert!(check_inject(&headers, &vec![field("a\"b", "tab\tbed")]));
    assert!(!check_inject(&headers, &vec![field("", "value")]));
    assert!(!check_inject(&headers, &vec![field("a b", "value")]));
    assert!(!check_inject(&headers, &vec![field("na\u{ef}ve", "value")]));
    assert!(!check_inject(&headers, &vec![field("a", "new\nline")]));
    assert!(!check_inject(&headers, &vec![field("a", "\u{7f}")]));
    assert!(check_inject(&headers, &vec![field(&"a".repeat(65535), "value")]));
    assert!(!check_inject(&headers, &vec![field(&"a".repeat(65536), "value")]));
}

#[test]
fn crowded_headers_take_no_context() {
    let mut req = get("/");
    for i in 0..6553 {
        let name = http::header::HeaderName::from_bytes(format!("x-{}", i).as_bytes()).unwrap();
        req.headers.insert(name, HeaderValue::from_static("v"));
    }
    assert!(check_forward(&req, &vec![field("a", "1")]));
    assert!(!check_forward(&req, &vec![field("a", "1"), field("b", "2")]));
    assert!(check_forward(&req, &vec![]));
    let strangler = Strangler::new(authority("example.org"));
    let out = forward_with(&strangler, req, vec![field("a", "1")]);
    assert_eq!(out.headers.keys_len(), 6554);
    assert_eq!(out.headers["a"], "1");
}

#[test]
fn request_without_a_path_cannot_be_forwarded() {
    let mut req = get("/");
    req.uri.path_and_query = None;
    assert!(!check_forward(&req, &vec![]));
    req.original_uri = Some(uri("/a"));
    assert!(check_forward(&req, &vec![]));
}

#[test]
fn answer_of_the_strangled_application_is_passed_along() {
    let service = InnerStranglerService::new(
        authority("example.org"),
        HttpScheme::HTTP,
        WebSocketScheme::WS,
        false,
    );
    let mut headers = HeaderMap::new();
    headers.append("set-cookie", HeaderValue::from_static("a=1"));
    headers.append("set-cookie", HeaderValue::from_static("b=2"));
    let answer = service.clone().answer(response(503, headers.clone()));
    assert_eq!(answer.status, 503);
    assert_eq!(answer.headers, headers);
}

#[test]
fn answer_is_a_fresh_response() {
    let strangler = Strangler::new(authority("example.org"));
    for version in [
        HttpVersion::Http09,
        HttpVersion::Http10,
        HttpVersion::Http11,
        HttpVersion::H2,
        HttpVersion::H3,
    ] {
        let mut strangled = response(404, HeaderMap::new());
        strangled.version = version;
        strangled.extended = true;
        let answer = strangler.answer(strangled);
        assert_eq!(answer.version, HttpVersion::Http11);
        assert_eq!(answer.status, 404);
        assert!(!answer.extended);
    }
}

#[test]
fn names_keep_values() {
    let strangler = Strangler::builder(authority("example.org"))
        .rewrite_strangled_request_host_header(true)
        .build();
    let req = with_header(with_header(get("/"), "host", "me"), "x-custom", "");
    let out = forward_with(&strangler, req, vec![field("traceparent", "00")]);
    assert_eq!(out.headers.keys_len(), 3);
    for name in out.headers.keys() {
        assert_eq!(out.headers.get_all(name).iter().count(), 1);
    }
}
