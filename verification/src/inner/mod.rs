//! What a strangler does with a request.
pub mod relay;
pub mod tracing_opentelemetry_text_map_propagation;
pub mod websocket;

use crate::headers::{
    first_value, header_get, header_key, header_overwrite, is_header_name, is_header_value,
    is_header_value_byte, overwritten, plain, HeaderContents,
};
use crate::inner::tracing_opentelemetry_text_map_propagation::{
    can_inject, check_inject, field_views, fields_set, inject_opentelemetry_context_into_request,
    ContextField,
};
use crate::inner::websocket::{
    asks_for_websocket, can_upgrade, check_upgrade, is_websocket_upgrade, upgraded,
    WebSocketUpgrade, WebSocketUpgradeView,
};
use crate::message::{HttpVersion, Request, RequestView, Response, ResponseView};
use crate::uri::{is_graphic, strangled_uri, Authority, PathAndQuery, Uri};
use crate::{HttpScheme, WebSocketScheme};
use vstd::prelude::*;
use vstd::utf8::*;

verus! {

/// How a strangler is set up.
pub struct StranglerView {
    /// The authority of the strangled application.
    pub authority: Seq<char>,
    /// The scheme of the requests to it.
    pub http_scheme: HttpScheme,
    /// The scheme of the websocket connections to it.
    pub web_socket_scheme: WebSocketScheme,
    /// Whether the `host` header of a request is rewritten.
    pub rewrite_host: bool,
}

impl StranglerView {
    /// The options of a strangler on which only the authority was set.
    pub open spec fn with_defaults(authority: Seq<char>) -> Self {
        StranglerView {
            authority,
            http_scheme: HttpScheme::HTTP,
            web_socket_scheme: WebSocketScheme::WS,
            rewrite_host: false,
        }
    }

    /// The options with another scheme for requests.
    pub open spec fn with_http_scheme(self, http_scheme: HttpScheme) -> Self {
        StranglerView { http_scheme, ..self }
    }

    /// The options with another scheme for websocket connections.
    pub open spec fn with_web_socket_scheme(self, web_socket_scheme: WebSocketScheme) -> Self {
        StranglerView { web_socket_scheme, ..self }
    }

    /// The options with the `host` header rewritten, or not.
    pub open spec fn with_rewrite_host(self, rewrite_host: bool) -> Self {
        StranglerView { rewrite_host, ..self }
    }
}

/// The part of a strangler that decides.
pub struct InnerStranglerService {
    strangled_authority: Authority,
    strangled_http_scheme: HttpScheme,
    strangled_web_socket_scheme: WebSocketScheme,
    rewrite_strangled_request_host_header: bool,
}

impl View for InnerStranglerService {
    type V = StranglerView;

    closed spec fn view(&self) -> StranglerView {
        StranglerView {
            authority: self.strangled_authority@,
            http_scheme: self.strangled_http_scheme,
            web_socket_scheme: self.strangled_web_socket_scheme,
            rewrite_host: self.rewrite_strangled_request_host_header,
        }
    }
}

impl Clone for InnerStranglerService {
    fn clone(&self) -> (r: Self)
        ensures
            r == *self,
    {
        InnerStranglerService {
            strangled_authority: self.strangled_authority.clone(),
            strangled_http_scheme: self.strangled_http_scheme,
            strangled_web_socket_scheme: self.strangled_web_socket_scheme,
            rewrite_strangled_request_host_header: self.rewrite_strangled_request_host_header,
        }
    }
}

impl InnerStranglerService {
    /// A service with these options.
    pub fn new(
        strangled_authority: Authority,
        strangled_http_scheme: HttpScheme,
        strangled_web_socket_scheme: WebSocketScheme,
        rewrite_strangled_request_host_header: bool,
    ) -> (service: Self)
        ensures
            service@ == (StranglerView {
                authority: strangled_authority@,
                http_scheme: strangled_http_scheme,
                web_socket_scheme: strangled_web_socket_scheme,
                rewrite_host: rewrite_strangled_request_host_header,
            }),
    {
        InnerStranglerService {
            strangled_authority,
            strangled_http_scheme,
            strangled_web_socket_scheme,
            rewrite_strangled_request_host_header,
        }
    }
}

/// What is to be done with a request.
pub enum Forwarding {
    /// Connect a websocket.
    WebSocket(WebSocketUpgrade),
    /// Send this request to the strangled application, and answer with what comes back.
    Http(Request),
}

/// What a [`Forwarding`] says.
pub enum ForwardingView {
    /// Connect a websocket.
    WebSocket(WebSocketUpgradeView),
    /// Send this request to the strangled application.
    Http(RequestView),
}

impl View for Forwarding {
    type V = ForwardingView;

    open spec fn view(&self) -> ForwardingView {
        match *self {
            Forwarding::WebSocket(upgrade) => ForwardingView::WebSocket(upgrade@),
            Forwarding::Http(out) => ForwardingView::Http(out@),
        }
    }
}

/// Whether a request can be forwarded, together with a tracing context.
pub open spec fn can_forward(req: RequestView, context: Seq<ContextField>) -> bool {
    if asks_for_websocket(req) {
        can_upgrade(req)
    } else {
        req.asked_path_and_query() is Some && can_inject(req.headers, context)
    }
}

/// The headers with the `host` header, where there is one, naming `authority`.
pub open spec fn host_rewritten(headers: HeaderContents, authority: Seq<char>) -> HeaderContents {
    if headers.dom().contains(header_key("host"@)) {
        overwritten(headers, "host"@, plain(encode_utf8(authority)))
    } else {
        headers
    }
}

/// The request that a strangler sends to the strangled application in place of `req`.
pub open spec fn forwarded(
    strangler: StranglerView,
    req: RequestView,
    context: Seq<ContextField>,
) -> RequestView {
    let headers = fields_set(req.headers, context);
    RequestView {
        uri: strangled_uri(
            strangler.http_scheme.text(),
            strangler.authority,
            req.asked_path_and_query()->0,
        ),
        headers: if strangler.rewrite_host {
            host_rewritten(headers, strangler.authority)
        } else {
            headers
        },
        ..req
    }
}

/// What a strangler decides to do with a request, together with a tracing context.
pub open spec fn decided(
    strangler: StranglerView,
    req: RequestView,
    context: Seq<ContextField>,
) -> ForwardingView {
    if asks_for_websocket(req) {
        ForwardingView::WebSocket(upgraded(strangler, req))
    } else {
        ForwardingView::Http(forwarded(strangler, req, context))
    }
}

/// The answer to the client, where the strangled application answered with `strangled`.
pub open spec fn answered(strangled: ResponseView) -> ResponseView {
    ResponseView { version: HttpVersion::Http11, extended: false, ..strangled }
}

/// Whether a request can be forwarded, together with a tracing context.
///
/// A request for a websocket needs a key to sign, a connection that can be taken over and a path. Any
/// other needs a path, and the fields of the context must be fit to stand in its headers.
pub fn check_forward(req: &Request, context: &Vec<(String, String)>) -> (r: bool)
    ensures
        r == can_forward(req@, field_views(context@)),
{
    if is_websocket_upgrade(req) {
        check_upgrade(req)
    } else {
        let has_path: bool = match &req.original_uri {
            Some(original_uri) => original_uri.path_and_query.is_some(),
            None => req.uri.path_and_query.is_some(),
        };
        has_path && check_inject(&req.headers, context)
    }
}

/// Printable ASCII may stand in a header value.
proof fn lemma_graphic_is_header_value(text: Seq<char>)
    requires
        is_graphic(text),
    ensures
        is_header_value(encode_utf8(text)),
{
    assert(is_ascii_chars(text));
    is_ascii_chars_encode_utf8(text);
    assert forall|i: int| 0 <= i < encode_utf8(text).len() implies is_header_value_byte(
        #[trigger] encode_utf8(text)[i],
    ) by {
        assert('!' <= text[i] && text[i] <= '~');
    }
}

impl InnerStranglerService {
    /// The scheme of the requests to the strangled application.
    fn get_http_scheme(&self) -> (scheme: &'static str)
        ensures
            scheme@ == self@.http_scheme.text(),
    {
        match self.strangled_http_scheme {
            HttpScheme::HTTP => "http",
            HttpScheme::HTTPS => "https",
        }
    }

    /// Decides what is to be done with a request. A request that asks for a websocket is answered
    /// with one. Any other goes to the strangled application: under its authority and scheme, with
    /// the fields of the tracing context set, with the `host` header rewritten if that was asked for,
    /// and otherwise as it came.
    pub fn forward_call_to_strangled(
        &self,
        req: Request,
        context: Vec<(String, String)>,
    ) -> (forwarding: Forwarding)
        requires
            can_forward(req@, field_views(context@)),
        ensures
            forwarding@ == decided(self@, req@, field_views(context@)),
            forwarding matches Forwarding::Http(out) ==> out.method == req.method
                && out.original_uri == req.original_uri && out.upgradable == req.upgradable,
            forwarding matches Forwarding::Http(out) ==> (self@.rewrite_host
                && out@.headers.dom().contains(header_key("host"@)) ==> first_value(
                out@.headers,
                "host"@,
            ) == Some(plain(encode_utf8(self@.authority)))),
            forwarding matches Forwarding::Http(out) ==> (context@.len() == 0 && (
            !self@.rewrite_host || !req@.headers.dom().contains(header_key("host"@)))
                ==> out.headers == req.headers),
    {
        let req = match self.handle_websocket_upgrade_request(req) {
            Ok(upgrade) => {
                return Forwarding::WebSocket(upgrade);
            },
            Err(req) => req,
        };
        let mut req = inject_opentelemetry_context_into_request(req, context);

        let path_and_query: PathAndQuery = match &req.original_uri {
            Some(original_uri) => original_uri.path_and_query.clone().unwrap(),
            None => req.uri.path_and_query.clone().unwrap(),
        };
        let uri = Uri::build(self.get_http_scheme(), &self.strangled_authority, &path_and_query);

        if self.rewrite_strangled_request_host_header {
            // Change the host header so any sort of other proxy in between can route correctly based
            // on hostname.
            proof {
                reveal_strlit("host");
                assert(is_header_name("host"@));
            }
            if header_get(&req.headers, "host").is_some() {
                let authority = self.strangled_authority.as_str();
                proof {
                    lemma_graphic_is_header_value(authority@);
                }
                header_overwrite(&mut req.headers, "host", authority.as_bytes());
            }
        }
        req.uri = uri;
        Forwarding::Http(req)
    }

    /// The answer to the client, out of the answer of the strangled application. It is a fresh
    /// response with the same status and the same headers: whatever version the strangled
    /// application speaks, the answer is in HTTP/1.1, and no extensions are taken over.
    pub fn answer(&self, strangled: Response) -> (response: Response)
        ensures
            response@ == answered(strangled@),
            response.headers == strangled.headers,
    {
        Response {
            version: HttpVersion::Http11,
            status: strangled.status,
            headers: strangled.headers,
            extended: false,
        }
    }
}

} // verus!
