//! Propagates the tracing context of the current span into a request.
use crate::calls::{lemma_small_is_key, small};
use crate::headers::{
    check_header_name, check_header_value, has_room, header_contents, header_insert, header_key,
    header_names, is_header_name, is_header_value, plain, FieldValue, HeaderContents,
    MAX_HEADER_NAMES,
};
use crate::message::{Request, RequestView};
use vstd::prelude::*;
use vstd::utf8::*;

verus! {

/// A field of a tracing context: its key, and its value.
pub type ContextField = (Seq<char>, Seq<char>);

/// The fields in `fields`.
pub open spec fn field_views(fields: Seq<(String, String)>) -> Seq<ContextField> {
    fields.map_values(|field: (String, String)| (field.0@, field.1@))
}

/// Whether a field can stand in a header.
pub open spec fn is_header_field(field: ContextField) -> bool {
    is_header_name(field.0) && is_header_value(encode_utf8(field.1))
}

/// Whether every field can stand in a header.
pub open spec fn are_header_fields(fields: Seq<ContextField>) -> bool {
    forall|i: int| 0 <= i < fields.len() ==> is_header_field(#[trigger] fields[i])
}

/// The headers with one field set.
pub open spec fn field_set(headers: HeaderContents, field: ContextField) -> HeaderContents {
    headers.insert(header_key(field.0), seq![plain(encode_utf8(field.1))])
}

/// The headers with the fields set one after the other.
pub open spec fn fields_set(headers: HeaderContents, fields: Seq<ContextField>) -> HeaderContents
    decreases fields.len(),
{
    if fields.len() == 0 {
        headers
    } else {
        field_set(fields_set(headers, fields.drop_last()), fields.last())
    }
}

/// Whether the fields can be set on a request with these headers.
pub open spec fn can_inject(headers: HeaderContents, fields: Seq<ContextField>) -> bool {
    &&& are_header_fields(fields)
    &&& fields.len() > 0 ==> has_room(headers, fields.len() as int)
}

/// Carries the fields of a tracing context into the headers of a request.
pub struct RequestCarrier<'a> {
    /// The request that the fields are carried into.
    pub request: &'a mut Request,
}

impl<'a> RequestCarrier<'a> {
    /// A carrier into `request`. The request ends up as the carrier leaves it.
    pub fn new(request: &'a mut Request) -> (carrier: Self)
        ensures
            *carrier.request == *old(request),
            *final(carrier.request) == *final(request),
    {
        RequestCarrier { request }
    }

    /// Sets a field: it becomes the only value of the header with its key for a name.
    pub fn set(&mut self, key: &str, value: String)
        requires
            is_header_field((key@, value@)),
            has_room(old(self).request@.headers, 1),
        ensures
            final(self).request@ == (RequestView {
                headers: field_set(old(self).request@.headers, (key@, value@)),
                ..old(self).request@
            }),
            final(self).request.method == old(self).request.method,
            final(self).request.uri == old(self).request.uri,
            final(self).request.original_uri == old(self).request.original_uri,
            final(self).request.upgradable == old(self).request.upgradable,
            forall|name: Seq<char>|
                header_contents(final(self).request.headers).dom().contains(name) <==> (name == small(
                    key@,
                ) || #[trigger] header_contents(old(self).request.headers).dom().contains(name)),
            forall|name: Seq<char>|
                name != small(key@) ==> #[trigger] header_contents(final(self).request.headers)[name]
                    == header_contents(old(self).request.headers)[name],
            header_contents(final(self).request.headers)[small(key@)] == seq![
                (FieldValue { bytes: encode_utf8(value@), sensitive: false }),
            ],
            *final(final(self).request) == *final(old(self).request),
    {
        proof {
            lemma_small_is_key(key@);
        }
        header_insert(&mut self.request.headers, key, value.as_str().as_bytes());
    }
}

/// Whether the fields can be set on a request with these headers.
pub fn check_inject(
    headers: &http::HeaderMap<http::HeaderValue>,
    fields: &Vec<(String, String)>,
) -> (r: bool)
    ensures
        r == can_inject(header_contents(*headers), field_views(fields@)),
{
    let ghost views = field_views(fields@);
    let mut i: usize = 0;
    while i < fields.len()
        invariant
            i <= fields.len(),
            views == field_views(fields@),
            forall|j: int| 0 <= j < i ==> is_header_field(#[trigger] views[j]),
        decreases fields.len() - i,
    {
        if !check_header_name(fields[i].0.as_str()) || !check_header_value(
            fields[i].1.as_str().as_bytes(),
        ) {
            assert(!is_header_field(views[i as int]));
            return false;
        }
        i = i + 1;
    }
    let names: usize = header_names(headers);
    fields.len() == 0 || names <= MAX_HEADER_NAMES && fields.len() <= MAX_HEADER_NAMES - names
}

/// Setting a field adds at most one name.
proof fn lemma_fields_set_room(headers: HeaderContents, fields: Seq<ContextField>, more: int)
    requires
        has_room(headers, fields.len() + more),
    ensures
        has_room(fields_set(headers, fields), more),
    decreases fields.len(),
{
    if fields.len() > 0 {
        lemma_fields_set_room(headers, fields.drop_last(), more + 1);
    }
}

/// Sets the fields of the current tracing context, which the propagator wrote out as `fields`, on a
/// request. Without fields the request stays as it is.
pub fn inject_opentelemetry_context_into_request(
    request: Request,
    fields: Vec<(String, String)>,
) -> (injected: Request)
    requires
        can_inject(request@.headers, field_views(fields@)),
    ensures
        injected@ == (RequestView {
            headers: fields_set(request@.headers, field_views(fields@)),
            ..request@
        }),
        injected.method == request.method,
        injected.uri == request.uri,
        injected.original_uri == request.original_uri,
        injected.upgradable == request.upgradable,
        fields@.len() == 0 ==> injected == request,
{
    let mut request = request;
    let ghost received = request;
    let ghost before = request@;
    let ghost views = field_views(fields@);
    let mut i: usize = 0;
    assert(views.take(0) =~= Seq::<ContextField>::empty());
    while i < fields.len()
        invariant
            i <= fields.len(),
            views == field_views(fields@),
            can_inject(before.headers, views),
            request@ == (RequestView {
                headers: fields_set(before.headers, views.take(i as int)),
                ..before
            }),
            request.method == received.method,
            request.uri == received.uri,
            request.original_uri == received.original_uri,
            request.upgradable == received.upgradable,
            i == 0 ==> request == received,
        decreases fields.len() - i,
    {
        proof {
            assert(views.take(i + 1).drop_last() =~= views.take(i as int));
            assert(is_header_field(views[i as int]));
            lemma_fields_set_room(before.headers, views.take(i as int), fields@.len() - i);
        }
        let mut carrier = RequestCarrier::new(&mut request);
        carrier.set(fields[i].0.as_str(), fields[i].1.clone());
        i = i + 1;
    }
    assert(views.take(i as int) =~= views);
    request
}

} // verus!
