//! # Axum Strangler
//! The decisions behind a service that applies the Strangler Fig pattern: everything that is not
//! handled by the "strangler" is forwarded to the "stranglee" or "strangled application" (a.k.a. the
//! old application).
//!
//! A [`Strangler`] is put together by a [`StranglerBuilder`]. [`Strangler::forward_to_strangled`]
//! decides what is to be done with a request: it is either sent to the strangled application, under
//! the authority and the scheme of that application, or it asks for a websocket, and then a websocket
//! is set up on both sides and every message is relayed, one direction at a time, by
//! [`inner::relay::relay_step`]. Sockets, bodies and timers are not part of this crate.
//!
//! ## Example
//! A strangler in front of `127.0.0.1:3333` makes of a request for `/api/something` one for
//! `http://127.0.0.1:3333/api/something`, with the same method and the same headers.
pub mod builder;
pub mod calls;
pub mod headers;
pub mod inner;
pub mod laws;
pub mod message;
pub mod uri;

use crate::builder::StranglerBuilder;
use crate::headers::{first_value, header_key, plain};
use crate::inner::tracing_opentelemetry_text_map_propagation::field_views;
use crate::inner::{
    answered, can_forward, decided, Forwarding, InnerStranglerService, StranglerView,
};
use crate::message::{Request, Response};
use crate::uri::Authority;
use vstd::prelude::*;
use vstd::utf8::encode_utf8;

verus! {

/// The scheme over which the strangled application takes requests.
#[derive(Clone, Copy, Debug, PartialEq, Eq, Structural)]
pub enum HttpScheme {
    /// Plain HTTP.
    HTTP,
    /// HTTP over TLS.
    HTTPS,
}

impl HttpScheme {
    /// The scheme as it stands in a URI.
    pub open spec fn text(self) -> Seq<char> {
        match self {
            HttpScheme::HTTP => "http"@,
            HttpScheme::HTTPS => "https"@,
        }
    }
}

/// The scheme over which the strangled application takes websocket connections.
#[derive(Clone, Copy, Debug, PartialEq, Eq, Structural)]
pub enum WebSocketScheme {
    /// A plain websocket.
    WS,
    /// A websocket over TLS.
    WSS,
}

impl WebSocketScheme {
    /// The scheme as it stands in a URI.
    pub open spec fn text(self) -> Seq<char> {
        match self {
            WebSocketScheme::WS => "ws"@,
            WebSocketScheme::WSS => "wss"@,
        }
    }
}

/// Forwards all requests to another application.
/// Can be used in a lot of places, but the most common one would be as the fallback of a router.
pub struct Strangler {
    inner: InnerStranglerService,
}

impl View for Strangler {
    type V = StranglerView;

    closed spec fn view(&self) -> StranglerView {
        self.inner@
    }
}

impl Strangler {
    /// The strangler that decides as `inner` does.
    pub(crate) fn from_inner(inner: InnerStranglerService) -> (strangler: Self)
        ensures
            strangler@ == inner@,
    {
        Strangler { inner }
    }

    /// Creates a new `Strangler` with the default options.
    /// For more control, see [`StranglerBuilder`].
    pub fn new(strangled_authority: Authority) -> (strangler: Self)
        ensures
            strangler@ == StranglerView::with_defaults(strangled_authority@),
    {
        Strangler::builder(strangled_authority).build()
    }

    /// A builder of a `Strangler`, with every option at its default.
    pub fn builder(strangled_authority: Authority) -> (builder: StranglerBuilder)
        ensures
            builder@ == StranglerView::with_defaults(strangled_authority@),
    {
        StranglerBuilder::new(strangled_authority)
    }

    /// Decides how to forward a request to the strangled application, with the fields of the current
    /// tracing context. Meant to be used when you want to send something to the strangled application
    /// based on some custom logic.
    ///
    /// [`inner::check_forward`] tells whether a request brings all that it takes.
    pub fn forward_to_strangled(&self, req: Request, context: Vec<(String, String)>) -> (forwarding:
        Forwarding)
        requires
            can_forward(req@, field_views(context@)),
        ensures
            forwarding@ == decided(self@, req@, field_views(context@)),
            forwarding matches Forwarding::Http(out) ==> out.method == req.method
                && out.original_uri == req.original_uri && out.upgradable == req.upgradable,
            forwarding matches Forwarding::Http(out) ==> (self@.rewrite_host
                && out@.headers.dom().contains(header_key("host"@)) ==> first_value(
                out@.headers,
                "host"@,
            ) == Some(plain(encode_utf8(self@.authority)))),
            forwarding matches Forwarding::Http(out) ==> (context@.len() == 0 && (
            !self@.rewrite_host || !req@.headers.dom().contains(header_key("host"@)))
                ==> out.headers == req.headers),
    {
        self.inner.forward_call_to_strangled(req, context)
    }

    /// The answer to the client, out of the answer of the strangled application: a fresh response in
    /// HTTP/1.1 with the same status and the same headers.
    pub fn answer(&self, strangled: Response) -> (response: Response)
        ensures
            response@ == answered(strangled@),
            response.headers == strangled.headers,
    {
        self.inner.answer(strangled)
    }
}

impl Clone for Strangler {
    fn clone(&self) -> (r: Self)
        ensures
            r@ == self@,
    {
        Strangler { inner: self.inner.clone() }
    }
}

} // verus!
