//! Puts a [`Strangler`] together, option by option.
use crate::inner::{InnerStranglerService, StranglerView};
use crate::uri::Authority;
use crate::{HttpScheme, Strangler, WebSocketScheme};
use vstd::prelude::*;

verus! {

/// The options of a [`Strangler`] that is being put together.
pub struct StranglerBuilder {
    authority: Authority,
    http_scheme: HttpScheme,
    web_socket_scheme: WebSocketScheme,
    rewrite_strangled_request_host_header: bool,
}

impl View for StranglerBuilder {
    type V = StranglerView;

    closed spec fn view(&self) -> StranglerView {
        StranglerView {
            authority: self.authority@,
            http_scheme: self.http_scheme,
            web_socket_scheme: self.web_socket_scheme,
            rewrite_host: self.rewrite_strangled_request_host_header,
        }
    }
}

impl StranglerBuilder {
    /// Creates a new builder with the default options.
    pub fn new(authority: Authority) -> (builder: Self)
        ensures
            builder@ == StranglerView::with_defaults(authority@),
    {
        StranglerBuilder {
            authority,
            http_scheme: HttpScheme::HTTP,
            web_socket_scheme: WebSocketScheme::WS,
            rewrite_strangled_request_host_header: false,
        }
    }

    /// The default is `HttpScheme::HTTP`
    pub fn with_http_scheme(self, http_scheme: HttpScheme) -> (builder: Self)
        ensures
            builder@ == self@.with_http_scheme(http_scheme),
    {
        StranglerBuilder { http_scheme, ..self }
    }

    /// The default is `WebSocketScheme::WS`
    pub fn with_web_socket_scheme(self, web_socket_scheme: WebSocketScheme) -> (builder: Self)
        ensures
            builder@ == self@.with_web_socket_scheme(web_socket_scheme),
    {
        StranglerBuilder { web_socket_scheme, ..self }
    }

    /// Whether the strangler should rewrite the `host` header to the strangled target, or leave it be
    /// as is. The default is to leave it.
    /// If the other service is behind e.g. a `traefik` ingress controller or `nginx`, you probably
    /// want to set this to `true`, otherwise those proxies won't know where to send the request.
    pub fn rewrite_strangled_request_host_header(
        self,
        rewrite_strangled_request_host_header: bool,
    ) -> (builder: Self)
        ensures
            builder@ == self@.with_rewrite_host(rewrite_strangled_request_host_header),
    {
        StranglerBuilder { rewrite_strangled_request_host_header, ..self }
    }

    /// Turns the builder into a `Strangler`.
    pub fn build(self) -> (strangler: Strangler)
        ensures
            strangler@ == self@,
    {
        Strangler::from_inner(
            InnerStranglerService::new(
                self.authority,
                self.http_scheme,
                self.web_socket_scheme,
                self.rewrite_strangled_request_host_header,
            ),
        )
    }
}

} // verus!
