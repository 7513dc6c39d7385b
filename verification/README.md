# Axum Strangler

A utility crate to be able to easily use the Strangler Fig pattern with the Axum crate without having
to use some sort of gateway: you put the new service in front of the one you want to migrate away from,
and what the new service does not handle is forwarded.

- `src/` is the library, verified with [Verus](https://github.com/verus-lang/verus). It holds every
  decision: where a request goes, which of its headers change, which requests ask for a websocket and
  how they are answered, and how the messages of a websocket are relayed. `src/laws.rs` states what
  holds of the strangler as a whole. Headers are kept in the header map of the `http` crate; what is
  believed of that crate, of `sha1` and of `base64` is stated in the contracts of the functions marked
  `external_body`.
- `tests/` runs the library with those crates.
- `app/` is the `tower_service::Service`: sockets, the HTTP client, the tasks of a websocket, and the
  tracing context of the current span.

## Options

`Strangler::builder` starts with plain HTTP, plain websockets, and the `host` header left as it is.
`with_http_scheme` and `with_web_socket_scheme` choose TLS, and
`rewrite_strangled_request_host_header` makes the `host` header name the strangled application.
