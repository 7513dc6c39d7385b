//! The parts of a URI that the strangler reads and writes.
use vstd::prelude::*;

verus! {

/// `http::uri::InvalidUri`, as an opaque type.
#[verifier::external_type_specification]
#[verifier::external_body]
pub struct ExInvalidUri(http::uri::InvalidUri);

/// `http::Error`, as an opaque type.
#[verifier::external_type_specification]
#[verifier::external_body]
pub struct ExHttpError(http::Error);

/// Why a text is not a part of a URI.
#[derive(Clone, Copy, Debug, PartialEq, Eq, Structural)]
pub enum UriError {
    /// The text is not an authority.
    Authority,
    /// The text is not a path with an optional query.
    PathAndQuery,
}

/// Whether `http::uri::Authority` accepts `text`.
pub uninterp spec fn is_authority(text: Seq<char>) -> bool;

/// What `http::uri::PathAndQuery` reads out of `text`, if it accepts it.
pub uninterp spec fn path_and_query_of(text: Seq<char>) -> Option<Seq<char>>;

/// Whether all of `text` is printable ASCII without the space.
pub open spec fn is_graphic(text: Seq<char>) -> bool {
    forall|i: int| 0 <= i < text.len() ==> '!' <= #[trigger] text[i] && text[i] <= '~'
}

/// Whether `text` is one of the schemes over which the strangled application can be reached.
pub open spec fn is_strangled_scheme(text: Seq<char>) -> bool {
    text == "http"@ || text == "https"@ || text == "ws"@ || text == "wss"@
}

/// Reads `text` with `http::uri::Authority::try_from`. An authority is kept as it was written, and
/// only printable ASCII can stand in it.
#[verifier::external_body]
fn authority_try_from(text: &str) -> (r: Result<String, http::uri::InvalidUri>)
    ensures
        r is Ok <==> is_authority(text@),
        r matches Ok(authority) ==> authority@ == text@ && is_graphic(authority@),
{
    http::uri::Authority::try_from(text).map(|authority| authority.as_str().to_string())
}

/// Reads `text` with `http::uri::PathAndQuery::try_from`. What was read is read as itself again.
#[verifier::external_body]
fn path_and_query_try_from(text: &str) -> (r: Result<String, http::uri::InvalidUri>)
    ensures
        r is Ok <==> path_and_query_of(text@) is Some,
        r matches Ok(path_and_query) ==> path_and_query_of(text@) == Some(path_and_query@)
            && path_and_query_of(path_and_query@) == Some(path_and_query@),
{
    http::uri::PathAndQuery::try_from(text).map(
        |path_and_query| path_and_query.as_str().to_string(),
    )
}

/// The texts of the three parts of a URI.
struct UriTexts {
    scheme: String,
    authority: String,
    path_and_query: String,
}

/// Puts a URI together with `http::uri::Builder` and hands out the texts of its parts. It fails
/// exactly when the authority or the path and query is refused, and changes neither.
#[verifier::external_body]
fn uri_build(
    scheme: &str,
    authority: &str,
    path_and_query: &str,
) -> (r: Result<UriTexts, http::Error>)
    requires
        is_strangled_scheme(scheme@),
    ensures
        r is Ok <==> (is_authority(authority@) && path_and_query_of(path_and_query@) is Some),
        r matches Ok(parts) ==> parts.scheme@ == scheme@ && parts.authority@ == authority@
            && path_and_query_of(path_and_query@) == Some(parts.path_and_query@),
{
    let uri = http::Uri::builder()
        .scheme(scheme)
        .authority(authority)
        .path_and_query(path_and_query)
        .build()?;
    Ok(UriTexts {
        scheme: uri.scheme().unwrap().as_str().to_string(),
        authority: uri.authority().unwrap().as_str().to_string(),
        path_and_query: uri.path_and_query().unwrap().as_str().to_string(),
    })
}

/// The authority of a URI: the host, with what may stand around it.
pub struct Authority {
    text: String,
}

impl View for Authority {
    type V = Seq<char>;

    closed spec fn view(&self) -> Seq<char> {
        self.text@
    }
}

impl Authority {
    /// An authority is accepted by `http::uri::Authority`, so it can stand in a header value.
    #[verifier::type_invariant]
    closed spec fn wf(self) -> bool {
        is_authority(self.text@) && is_graphic(self.text@)
    }

    /// Reads an authority. It is kept as it was written.
    pub fn parse(text: &str) -> (r: Result<Authority, UriError>)
        ensures
            r is Ok <==> is_authority(text@),
            r matches Ok(authority) ==> authority@ == text@,
            r matches Err(error) ==> error == UriError::Authority,
    {
        match authority_try_from(text) {
            Ok(text) => Ok(Authority { text }),
            Err(_) => Err(UriError::Authority),
        }
    }

    /// The authority as text.
    pub fn as_str(&self) -> (text: &str)
        ensures
            text@ == self@,
            is_authority(text@),
            is_graphic(text@),
    {
        proof {
            use_type_invariant(self);
        }
        self.text.as_str()
    }
}

impl Clone for Authority {
    fn clone(&self) -> (r: Self)
        ensures
            r == *self,
    {
        proof {
            use_type_invariant(self);
        }
        Authority { text: self.text.clone() }
    }
}

/// The path of a URI, with its query where it has one.
pub struct PathAndQuery {
    text: String,
}

impl View for PathAndQuery {
    type V = Seq<char>;

    closed spec fn view(&self) -> Seq<char> {
        self.text@
    }
}

impl PathAndQuery {
    /// A path and query is what `http::uri::PathAndQuery` reads out of it.
    #[verifier::type_invariant]
    closed spec fn wf(self) -> bool {
        path_and_query_of(self.text@) == Some(self.text@)
    }

    /// Reads a path and query.
    pub fn parse(text: &str) -> (r: Result<PathAndQuery, UriError>)
        ensures
            r is Ok <==> path_and_query_of(text@) is Some,
            r matches Ok(path_and_query) ==> path_and_query_of(text@) == Some(path_and_query@),
            r matches Err(error) ==> error == UriError::PathAndQuery,
    {
        match path_and_query_try_from(text) {
            Ok(text) => Ok(PathAndQuery { text }),
            Err(_) => Err(UriError::PathAndQuery),
        }
    }

    /// The path and query as text.
    pub fn as_str(&self) -> (text: &str)
        ensures
            text@ == self@,
            path_and_query_of(text@) == Some(text@),
    {
        proof {
            use_type_invariant(self);
        }
        self.text.as_str()
    }
}

impl Clone for PathAndQuery {
    fn clone(&self) -> (r: Self)
        ensures
            r == *self,
    {
        proof {
            use_type_invariant(self);
        }
        PathAndQuery { text: self.text.clone() }
    }
}

/// The parts of a URI. A request's own URI may lack any of them.
pub struct Uri {
    /// The scheme, without the colon.
    pub scheme: Option<String>,
    /// The authority.
    pub authority: Option<Authority>,
    /// The path and query.
    pub path_and_query: Option<PathAndQuery>,
}

/// What a [`Uri`] says.
pub struct UriView {
    /// The scheme.
    pub scheme: Option<Seq<char>>,
    /// The authority.
    pub authority: Option<Seq<char>>,
    /// The path and query.
    pub path_and_query: Option<Seq<char>>,
}

/// The text of a part that may be missing.
pub open spec fn part_view<T: View<V = Seq<char>>>(part: Option<T>) -> Option<Seq<char>> {
    match part {
        Some(text) => Some(text@),
        None => None,
    }
}

impl View for Uri {
    type V = UriView;

    open spec fn view(&self) -> UriView {
        UriView {
            scheme: part_view(self.scheme),
            authority: part_view(self.authority),
            path_and_query: part_view(self.path_and_query),
        }
    }
}

/// The URI of a resource of the strangled application.
pub open spec fn strangled_uri(
    scheme: Seq<char>,
    authority: Seq<char>,
    path_and_query: Seq<char>,
) -> UriView {
    UriView {
        scheme: Some(scheme),
        authority: Some(authority),
        path_and_query: Some(path_and_query),
    }
}

impl Uri {
    /// The URI with exactly these three parts.
    pub(crate) fn build(scheme: &str, authority: &Authority, path_and_query: &PathAndQuery) -> (uri:
        Uri)
        requires
            is_strangled_scheme(scheme@),
        ensures
            uri@ == strangled_uri(scheme@, authority@, path_and_query@),
    {
        let parts = uri_build(scheme, authority.as_str(), path_and_query.as_str()).unwrap();
        Uri {
            scheme: Some(parts.scheme),
            authority: Some(Authority { text: parts.authority }),
            path_and_query: Some(PathAndQuery { text: parts.path_and_query }),
        }
    }
}

} // verus!
