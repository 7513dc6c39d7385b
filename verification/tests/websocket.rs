use axum_strangler::inner::websocket::{
    check_upgrade, header_contains, header_eq, is_websocket_upgrade, sign, switching_protocols,
    WebSocketUpgrade,
};
use axum_strangler::inner::{check_forward, Forwarding, InnerStranglerService};
use axum_strangler::message::{HttpVersion, Request};
use axum_strangler::uri::{Authority, PathAndQuery, Uri};
use axum_strangler::{HttpScheme, Strangler, WebSocketScheme};
use http::{HeaderMap, HeaderValue};

fn authority(text: &str) -> Authority {
    Authority::parse(text).unwrap()
}

fn headers(entries: &[(&'static str, &[u8])]) -> HeaderMap {
    let mut headers = HeaderMap::new();
    for (name, value) in entries {
        headers.append(*name, HeaderValue::from_bytes(value).unwrap());
    }
    headers
}

fn upgrade_request() -> Request {
    Request {
        method: "GET".to_string(),
        uri: Uri {
            scheme: None,
            authority: None,
            path_and_query: Some(PathAndQuery::parse("/api/websocket?x=1").unwrap()),
        },
        headers: headers(&[
            ("connection", b"keep-alive, Upgrade"),
            ("upgrade", b"WebSocket"),
            ("sec-websocket-version", b"13"),
            ("sec-websocket-key", b"dGhlIHNhbXBsZSBub25jZQ=="),
        ]),
        original_uri: None,
        upgradable: true,
    }
}

fn upgrade(strangler: &Strangler, req: Request) -> WebSocketUpgrade {
    assert!(check_forward(&req, &vec![]));
    match strangler.forward_to_strangled(req, vec![]) {
        Forwarding::WebSocket(upgrade) => upgrade,
        Forwarding::Http(_) => panic!("not taken for a websocket"),
    }
}

#[test]
fn signs_the_sample_nonce() {
    assert_eq!(sign(b"dGhlIHNhbXBsZSBub25jZQ=="), "s3pPLMBiTxaQ9kYGzzhZRbK+xOo=");
    assert_eq!(sign(b""), "Kfh9QIsMVZcl6xEPYxPHzW8SZ8w=");
}

#[test]
fn signature_ends_in_its_only_padding() {
    for key in [&b""[..], b"\xff\x00\n", b"not base64!", &[0; 1000]] {
        let accept = sign(key);
        assert_eq!(accept.len(), 28);
        let (digits, padding) = accept.split_at(27);
        assert!(digits.bytes().all(|b| b.is_ascii_alphanumeric() || b == b'+' || b == b'/'));
        assert_eq!(padding, "=");
    }
}

#[test]
fn upgrade_connects_to_the_strangled_application() {
    let strangler = Strangler::new(authority("127.0.0.1:3333"));
    let upgrade = upgrade(&strangler, upgrade_request());
    assert_eq!(upgrade.uri.scheme.as_deref(), Some("ws"));
    assert_eq!(upgrade.uri.authority.unwrap().as_str(), "127.0.0.1:3333");
    assert_eq!(upgrade.uri.path_and_query.unwrap().as_str(), "/api/websocket?x=1");
    assert_eq!(upgrade.response.version, HttpVersion::Http11);
    assert_eq!(upgrade.response.status, 101);
    assert!(!upgrade.response.extended);
    let expected = headers(&[
        ("connection", b"upgrade"),
        ("upgrade", b"websocket"),
        ("sec-websocket-accept", b"s3pPLMBiTxaQ9kYGzzhZRbK+xOo="),
    ]);
    assert_eq!(upgrade.response.headers, expected);
}

#[test]
fn upgrade_over_tls_keeps_the_protocol() {
    let strangler = Strangler::builder(authority("example.org"))
        .with_web_socket_scheme(WebSocketScheme::WSS)
        .build();
    let mut req = upgrade_request();
    req.headers.append("sec-websocket-protocol", HeaderValue::from_static("chat, superchat"));
    req.headers.append("sec-websocket-protocol", HeaderValue::from_static("other"));
    let upgrade = upgrade(&strangler, req);
    assert_eq!(upgrade.uri.scheme.as_deref(), Some("wss"));
    let values: Vec<&HeaderValue> =
        upgrade.response.headers.get_all("sec-websocket-protocol").iter().collect();
    assert_eq!(values, vec!["chat, superchat"]);
    assert_eq!(upgrade.response.headers.len(), 4);
}

#[test]
fn protocol_stays_marked_as_sensitive() {
    let strangler = Strangler::new(authority("example.org"));
    for sensitive in [false, true] {
        let mut protocol = HeaderValue::from_static("chat");
        protocol.set_sensitive(sensitive);
        let mut req = upgrade_request();
        req.headers.append("sec-websocket-protocol", protocol);
        let upgrade = upgrade(&strangler, req);
        assert_eq!(upgrade.response.headers["sec-websocket-protocol"], "chat");
        assert_eq!(upgrade.response.headers["sec-websocket-protocol"].is_sensitive(), sensitive);
        assert!(!upgrade.response.headers["sec-websocket-accept"].is_sensitive());
    }
}

#[test]
fn upgrade_goes_by_the_uri_of_the_request_itself() {
    let strangler = Strangler::new(authority("example.org"));
    let mut req = upgrade_request();
    req.original_uri = Some(Uri {
        scheme: None,
        authority: None,
        path_and_query: Some(PathAndQuery::parse("/nested/api/websocket").unwrap()),
    });
    let upgrade = upgrade(&strangler, req);
    assert_eq!(upgrade.uri.path_and_query.unwrap().as_str(), "/api/websocket?x=1");
}

#[test]
fn other_requests_are_handed_back() {
    let service = InnerStranglerService::new(
        authority("example.org"),
        HttpScheme::HTTP,
        WebSocketScheme::WS,
        false,
    );
    for spoil in 0..5 {
        let mut req = upgrade_request();
        match spoil {
            0 => req.method = "POST".to_string(),
            1 => req.method = "get".to_string(),
            2 => {
                req.headers.insert("connection", HeaderValue::from_static("close"));
            }
            3 => {
                req.headers.insert("upgrade", HeaderValue::from_static("websocket2"));
            }
            _ => {
                req.headers.remove("sec-websocket-version");
            }
        }
        assert!(!is_websocket_upgrade(&req));
        let method = req.method.clone();
        let before = req.headers.clone();
        match service.handle_websocket_upgrade_request(req) {
            Ok(_) => panic!("taken for a websocket"),
            Err(req) => {
                assert_eq!(req.method, method);
                assert_eq!(req.headers, before);
                assert_eq!(req.uri.path_and_query.unwrap().as_str(), "/api/websocket?x=1");
                assert!(req.upgradable);
            }
        }
    }
}

#[test]
fn upgrade_needs_a_key_a_connection_and_a_path() {
    assert!(check_upgrade(&upgrade_request()));

    let mut req = upgrade_request();
    req.headers.remove("sec-websocket-key");
    assert!(!check_upgrade(&req));
    assert!(!check_forward(&req, &vec![]));

    let mut req = upgrade_request();
    req.upgradable = false;
    assert!(!check_upgrade(&req));

    let mut req = upgrade_request();
    req.uri.path_and_query = None;
    assert!(!check_upgrade(&req));
}

#[test]
fn header_comparison_ignores_case_and_later_values() {
    let headers = headers(&[("x-a", b"WebSocket"), ("x-a", b"other"), ("x-b", b"web\xffsocket")]);
    assert!(header_eq(&headers, "x-a", "websocket"));
    assert!(header_eq(&headers, "X-A", "WEBSOCKET"));
    assert!(!header_eq(&headers, "x-a", "other"));
    assert!(!header_eq(&headers, "x-a", "websocke"));
    assert!(!header_eq(&headers, "x-b", "websocket"));
    assert!(!header_eq(&headers, "x-c", ""));
    assert!(!header_eq(&headers, "not a name", "websocket"));
}

/// 66 bytes that cannot be a header name, which a map takes as a literal nevertheless.
const NO_NAME: &str = "aaaaaaaaaaaaaaaaaaaaaaaaaaaaaaaaaaaaaaaaaaaaaaaaaaaaaaaaaaaaaaaa b";

#[test]
fn what_is_no_header_name_is_not_there() {
    assert_eq!(NO_NAME.len(), 66);
    let mut headers = HeaderMap::new();
    headers.insert(NO_NAME, HeaderValue::from_static("websocket"));
    assert_eq!(headers.keys_len(), 1);
    for key in [NO_NAME.to_string(), NO_NAME.replace(' ', "/"), NO_NAME.replace(' ', "\0")] {
        assert!(!header_eq(&headers, &key, "websocket"));
        assert!(!header_contains(&headers, &key, "websocket"));
    }

    let name = "A".repeat(66);
    headers.insert(
        http::header::HeaderName::from_bytes(name.as_bytes()).unwrap(),
        HeaderValue::from_static("websocket"),
    );
    assert!(header_eq(&headers, &name, "websocket"));
    assert!(header_contains(&headers, &name.to_lowercase(), "web"));
    assert!(!header_eq(&headers, &"b".repeat(66), "websocket"));
}

#[test]
fn protocol_is_copied_whatever_it_holds() {
    let mut strange = HeaderMap::new();
    strange.insert(NO_NAME, HeaderValue::from_static(""));
    let protocol = HeaderValue::from(strange.keys().next().unwrap().clone());
    assert!(protocol.as_bytes().contains(&0));

    let strangler = Strangler::new(authority("example.org"));
    let mut req = upgrade_request();
    req.headers.append("sec-websocket-protocol", protocol.clone());
    let upgrade = upgrade(&strangler, req);
    assert_eq!(upgrade.response.status, 101);
    assert_eq!(upgrade.response.headers["sec-websocket-protocol"], protocol);
}

#[test]
fn header_search_is_in_lower_case_and_in_utf8_only() {
    let headers = headers(&[
        ("x-a", b"keep-alive, UPGRADE"),
        ("x-a", b"other"),
        ("x-b", b"upgrade\xff"),
        ("x-c", b"upgrad"),
        ("x-d", "\u{e9}upgrade".as_bytes()),
        ("x-e", b""),
    ]);
    assert!(header_contains(&headers, "x-a", "upgrade"));
    assert!(header_contains(&headers, "x-a", "keep"));
    assert!(!header_contains(&headers, "x-a", "UPGRADE"));
    assert!(!header_contains(&headers, "x-a", "other"));
    assert!(!header_contains(&headers, "x-b", "upgrade"));
    assert!(!header_contains(&headers, "x-c", "upgrade"));
    assert!(header_contains(&headers, "x-d", "upgrade"));
    assert!(header_contains(&headers, "x-e", ""));
    assert!(!header_contains(&headers, "x-f", ""));
}

#[test]
fn switched_response_reads_back() {
    let response = switching_protocols("abc=", &headers(&[("sec-websocket-protocol", b"chat")]));
    assert_eq!(response.status, 101);
    assert_eq!(response.headers["Connection"], "upgrade");
    assert_eq!(response.headers["Upgrade"], "websocket");
    assert_eq!(response.headers["Sec-WebSocket-Accept"], "abc=");
    assert_eq!(response.headers["Sec-WebSocket-Protocol"], "chat");
    assert!(!response.headers["Sec-WebSocket-Protocol"].is_sensitive());
    let response = switching_protocols("abc=", &headers(&[("host", b"me")]));
    assert_eq!(response.headers.len(), 3);
}

#[test]
fn websocket_decision_ignores_case() {
    for (connection, upgrade) in [
        ("upgrade", "websocket"),
        ("UPGRADE", "WEBSOCKET"),
        ("Keep-Alive, uPgRaDe", "wEbSoCkEt"),
    ] {
        let mut req = upgrade_request();
        req.headers.insert("connection", HeaderValue::from_static(connection));
        req.headers.insert("upgrade", HeaderValue::from_static(upgrade));
        req.headers.insert("x-unrelated", HeaderValue::from_static("value"));
        assert!(is_websocket_upgrade(&req));
    }
}
