use axum_strangler::headers::{check_header_name, check_header_value};
use axum_strangler::uri::{Authority, PathAndQuery, UriError};

#[test]
fn authorities() {
    for text in ["127.0.0.1:0", "example.org", "user:pass@Example.org:80", "[::1]:8080"] {
        assert_eq!(Authority::parse(text).unwrap().as_str(), text);
        assert_eq!(Authority::parse(text).unwrap().clone().as_str(), text);
    }
    for text in ["", "example.org/a", "a b", "localhost:8080:3030", "caf\u{e9}.org", "user@"] {
        assert_eq!(Authority::parse(text).err(), Some(UriError::Authority));
    }
}

#[test]
fn paths() {
    for text in ["/", "*", "/a/b?c=d&e", "?a"] {
        assert_eq!(PathAndQuery::parse(text).unwrap().as_str(), text);
        assert_eq!(PathAndQuery::parse(text).unwrap().clone().as_str(), text);
    }
    assert_eq!(PathAndQuery::parse("").unwrap().as_str(), "/");
    assert_eq!(PathAndQuery::parse("/a#fragment").unwrap().as_str(), "/a");
    assert_eq!(PathAndQuery::parse("/a?b#fragment").unwrap().as_str(), "/a?b");
    for text in ["/a b", "/a\u{e9}", "/a?\u{7f}"] {
        assert_eq!(PathAndQuery::parse(text).err(), Some(UriError::PathAndQuery));
    }
}

#[test]
fn header_names_are_those_of_the_header_map() {
    for code in 0u32..256 {
        let c = char::from_u32(code).unwrap();
        let name = format!("a{}", c);
        let parsed = http::header::HeaderName::from_bytes(name.as_bytes());
        assert_eq!(check_header_name(&name), parsed.is_ok(), "{:?}", name);
    }
    assert!(!check_header_name(""));
}

#[test]
fn header_values_are_those_of_the_header_map() {
    for byte in 0u8..=255 {
        let parsed = http::HeaderValue::from_bytes(&[byte]);
        assert_eq!(check_header_value(&[byte]), parsed.is_ok(), "{:?}", byte);
    }
    assert!(check_header_value(b""));
}
