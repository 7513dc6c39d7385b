//! The head of a request and the head of a response. A body is never looked at.
use crate::headers::{header_contents, HeaderContents};
use crate::uri::{Uri, UriView};
use vstd::prelude::*;

verus! {

/// A request as the strangler sees it.
pub struct Request {
    /// The method, as it stands in the request line.
    pub method: String,
    /// The URI that is asked for. Inside a nested router the prefix of that router is missing.
    pub uri: Uri,
    /// The headers.
    pub headers: http::HeaderMap<http::HeaderValue>,
    /// The URI as it was before any router took a prefix off, where that was recorded.
    pub original_uri: Option<Uri>,
    /// Whether the connection of the request can be taken over for another protocol.
    pub upgradable: bool,
}

/// What a [`Request`] says.
pub struct RequestView {
    /// The method.
    pub method: Seq<char>,
    /// The URI that is asked for.
    pub uri: UriView,
    /// The headers.
    pub headers: HeaderContents,
    /// The URI before any router took a prefix off.
    pub original_uri: Option<UriView>,
    /// Whether the connection can be taken over.
    pub upgradable: bool,
}

impl View for Request {
    type V = RequestView;

    open spec fn view(&self) -> RequestView {
        RequestView {
            method: self.method@,
            uri: self.uri@,
            headers: header_contents(self.headers),
            original_uri: match self.original_uri {
                Some(uri) => Some(uri@),
                None => None,
            },
            upgradable: self.upgradable,
        }
    }
}

impl RequestView {
    /// The path and query that the client asked for: that of the original URI, where there is one.
    pub open spec fn asked_path_and_query(self) -> Option<Seq<char>> {
        match self.original_uri {
            Some(uri) => uri.path_and_query,
            None => self.uri.path_and_query,
        }
    }
}

/// The version of HTTP that a message speaks.
#[derive(Clone, Copy, Debug, PartialEq, Eq, Structural)]
pub enum HttpVersion {
    /// HTTP/0.9
    Http09,
    /// HTTP/1.0
    Http10,
    /// HTTP/1.1
    Http11,
    /// HTTP/2.0
    H2,
    /// HTTP/3.0
    H3,
}

/// A response without its body.
pub struct Response {
    /// The version of HTTP.
    pub version: HttpVersion,
    /// The status code.
    pub status: u16,
    /// The headers.
    pub headers: http::HeaderMap<http::HeaderValue>,
    /// Whether the response carries extensions, such as a reason phrase of its own.
    pub extended: bool,
}

/// What a [`Response`] says.
pub struct ResponseView {
    /// The version of HTTP.
    pub version: HttpVersion,
    /// The status code.
    pub status: u16,
    /// The headers.
    pub headers: HeaderContents,
    /// Whether the response carries extensions.
    pub extended: bool,
}

impl View for Response {
    type V = ResponseView;

    open spec fn view(&self) -> ResponseView {
        ResponseView {
            version: self.version,
            status: self.status,
            headers: header_contents(self.headers),
            extended: self.extended,
        }
    }
}

} // verus!
