//! What holds of the strangler as a whole.
use crate::headers::{
    every_name_has_a_value, first_bytes, first_value, has_room, header_key, plain, FieldValue,
    HeaderContents,
};
use crate::inner::tracing_opentelemetry_text_map_propagation::{
    field_set, field_views, fields_set, ContextField,
};
use crate::inner::websocket::{
    asks_for_websocket, lower_byte, lower_bytes, switched, upgraded, SWITCHING_PROTOCOLS,
};
use crate::inner::{can_forward, decided, forwarded, Forwarding, StranglerView};
use crate::message::{Request, RequestView, Response};
use crate::{HttpScheme, Strangler, WebSocketScheme};
use vstd::prelude::*;
use vstd::utf8::*;

verus! {

/// The options of a builder are independent: in whatever order they are set, the outcome is the same,
/// and of two settings of one option the later counts.
pub proof fn law_options_are_independent(
    options: StranglerView,
    http_scheme: HttpScheme,
    earlier_http_scheme: HttpScheme,
    web_socket_scheme: WebSocketScheme,
    earlier_web_socket_scheme: WebSocketScheme,
    rewrite_host: bool,
    earlier_rewrite_host: bool,
)
    ensures
        options.with_http_scheme(http_scheme).with_web_socket_scheme(web_socket_scheme)
            == options.with_web_socket_scheme(web_socket_scheme).with_http_scheme(http_scheme),
        options.with_http_scheme(http_scheme).with_rewrite_host(rewrite_host)
            == options.with_rewrite_host(rewrite_host).with_http_scheme(http_scheme),
        options.with_web_socket_scheme(web_socket_scheme).with_rewrite_host(rewrite_host)
            == options.with_rewrite_host(rewrite_host).with_web_socket_scheme(web_socket_scheme),
        options.with_http_scheme(earlier_http_scheme).with_http_scheme(http_scheme)
            == options.with_http_scheme(http_scheme),
        options.with_web_socket_scheme(earlier_web_socket_scheme).with_web_socket_scheme(
            web_socket_scheme,
        ) == options.with_web_socket_scheme(web_socket_scheme),
        options.with_rewrite_host(earlier_rewrite_host).with_rewrite_host(rewrite_host)
            == options.with_rewrite_host(rewrite_host),
{
}

/// Two stranglers with the same options decide alike: what they make of requests that say the same, with
/// contexts that say the same, says the same, and so do their answers to responses that say the same.
pub proof fn law_equal_stranglers_decide_alike(
    one: Strangler,
    other: Strangler,
    req: Request,
    other_req: Request,
    context: Vec<(String, String)>,
    other_context: Vec<(String, String)>,
    strangled: Response,
    other_strangled: Response,
)
    requires
        one@ == other@,
        req@ == other_req@,
        field_views(context@) == field_views(other_context@),
        strangled@ == other_strangled@,
    ensures
        can_forward(req@, field_views(context@)) == can_forward(
            other_req@,
            field_views(other_context@),
        ),
        decided(one@, req@, field_views(context@)) == decided(
            other@,
            other_req@,
            field_views(other_context@),
        ),
        forall|forwarding: Forwarding, other_forwarding: Forwarding|
            call_ensures(Strangler::forward_to_strangled, (&one, req, context), forwarding)
                && call_ensures(
                Strangler::forward_to_strangled,
                (&other, other_req, other_context),
                other_forwarding,
            ) ==> forwarding@ == other_forwarding@,
        forall|response: Response, other_response: Response|
            call_ensures(Strangler::answer, (&one, strangled), response) && call_ensures(
                Strangler::answer,
                (&other, other_strangled),
                other_response,
            ) ==> response@ == other_response@,
{
}

/// A clone of a strangler decides as the strangler does, on every request and on every response, and a
/// response is answered with its own status, whatever that is.
pub proof fn law_clone_decides_alike(
    strangler: Strangler,
    copy: Strangler,
    req: Request,
    context: Vec<(String, String)>,
    strangled: Response,
)
    requires
        call_ensures(Strangler::clone, (&strangler,), copy),
    ensures
        copy@ == strangler@,
        forall|forwarding: Forwarding, other_forwarding: Forwarding|
            call_ensures(Strangler::forward_to_strangled, (&strangler, req, context), forwarding)
                && call_ensures(
                Strangler::forward_to_strangled,
                (&copy, req, context),
                other_forwarding,
            ) ==> forwarding@ == other_forwarding@,
        forall|response: Response, other_response: Response|
            call_ensures(Strangler::answer, (&strangler, strangled), response) && call_ensures(
                Strangler::answer,
                (&copy, strangled),
                other_response,
            ) ==> response@ == other_response@ && response.status == strangled.status,
{
    law_equal_stranglers_decide_alike(
        strangler,
        copy,
        req,
        req,
        context,
        context,
        strangled,
        strangled,
    );
}

/// Whatever a request asks for, it goes to the strangled application, over the scheme that was chosen
/// and with the path and query that were asked for.
pub proof fn law_every_request_goes_to_the_strangled_application(
    strangler: StranglerView,
    req: RequestView,
    context: Seq<ContextField>,
)
    ensures
        forwarded(strangler, req, context).uri.authority == Some(strangler.authority),
        forwarded(strangler, req, context).uri.scheme == Some(strangler.http_scheme.text()),
        req.asked_path_and_query() is Some ==> forwarded(strangler, req, context).uri.path_and_query
            == req.asked_path_and_query(),
        upgraded(strangler, req).uri.authority == Some(strangler.authority),
        upgraded(strangler, req).uri.scheme == Some(strangler.web_socket_scheme.text()),
        req.uri.path_and_query is Some ==> upgraded(strangler, req).uri.path_and_query
            == req.uri.path_and_query,
{
}

/// A router that takes a prefix off the path of a request makes no difference to where the request
/// goes, as long as the URI from before is recorded.
pub proof fn law_nesting_does_not_change_the_target(
    strangler: StranglerView,
    req: RequestView,
    nested: RequestView,
    context: Seq<ContextField>,
)
    requires
        req.original_uri is None,
        nested.original_uri == Some(req.uri),
    ensures
        forwarded(strangler, nested, context).uri == forwarded(strangler, req, context).uri,
{
}

/// Whether a name belongs to one of the fields.
pub open spec fn names_a_field(fields: Seq<ContextField>, name: Seq<char>) -> bool {
    exists|i: int| 0 <= i < fields.len() && header_key((#[trigger] fields[i]).0) == header_key(name)
}

/// Setting fields touches the headers that they name, and no others. The last field with a name is
/// the one that counts.
pub proof fn law_fields_set(headers: HeaderContents, fields: Seq<ContextField>, name: Seq<char>)
    ensures
        !names_a_field(fields, name) ==> (fields_set(headers, fields).dom().contains(
            header_key(name),
        ) <==> headers.dom().contains(header_key(name))),
        !names_a_field(fields, name) ==> fields_set(headers, fields)[header_key(name)]
            == headers[header_key(name)],
        names_a_field(fields, name) ==> exists|i: int|
            0 <= i < fields.len() && header_key((#[trigger] fields[i]).0) == header_key(name) && (
            forall|j: int| i < j < fields.len() ==> header_key((#[trigger] fields[j]).0)
                != header_key(name)) && fields_set(headers, fields).dom().contains(header_key(name))
                && fields_set(headers, fields)[header_key(name)] == seq![
                plain(encode_utf8(fields[i].1)),
            ],
    decreases fields.len(),
{
    if fields.len() > 0 {
        let shorter = fields.drop_last();
        let last = fields.len() - 1;
        law_fields_set(headers, shorter, name);
        if header_key(fields[last].0) == header_key(name) {
            assert(names_a_field(fields, name));
        } else if names_a_field(shorter, name) {
            let i = choose|i: int|
                0 <= i < shorter.len() && header_key((#[trigger] shorter[i]).0) == header_key(name)
                    && (forall|j: int|
                    i < j < shorter.len() ==> header_key((#[trigger] shorter[j]).0) != header_key(
                        name,
                    )) && fields_set(headers, shorter).dom().contains(header_key(name))
                    && fields_set(headers, shorter)[header_key(name)] == seq![
                    plain(encode_utf8(shorter[i].1)),
                ];
            assert(fields[i] == shorter[i]);
            assert forall|j: int| i < j < fields.len() implies header_key((#[trigger] fields[j]).0)
                != header_key(name) by {
                if j < last {
                    assert(fields[j] == shorter[j]);
                }
            }
        } else {
            assert forall|i: int| 0 <= i < fields.len() implies header_key(
                (#[trigger] fields[i]).0,
            ) != header_key(name) by {
                if i < last {
                    assert(fields[i] == shorter[i]);
                }
            }
        }
    }
}

/// A field that was set is read back, under its key in any case, and reads of other headers are not
/// changed by it.
pub proof fn law_set_field_is_read_back(
    headers: HeaderContents,
    field: ContextField,
    name: Seq<char>,
)
    ensures
        header_key(name) == header_key(field.0) ==> first_value(field_set(headers, field), name)
            == Some(plain(encode_utf8(field.1))),
        header_key(name) != header_key(field.0) ==> first_value(field_set(headers, field), name)
            == first_value(headers, name),
{
}

/// Of two fields that are set one after the other under one key, in whatever case, only the later
/// counts: the headers are those that the later alone would have given. Where there is room for two names,
/// or for one and the name is there already, both can be set.
pub proof fn law_last_field_counts(
    headers: HeaderContents,
    earlier: ContextField,
    later: ContextField,
)
    requires
        header_key(earlier.0) == header_key(later.0),
    ensures
        field_set(field_set(headers, earlier), later) == field_set(headers, later),
        has_room(headers, 2) ==> has_room(headers, 1) && has_room(field_set(headers, earlier), 1),
        has_room(headers, 1) && headers.dom().contains(header_key(later.0)) ==> has_room(
            field_set(headers, earlier),
            1,
        ),
{
}

/// Forwarding keeps the method of a request, and every header but the `host` header and those that the
/// tracing context sets.
pub proof fn law_forwarding_keeps_the_rest(
    strangler: StranglerView,
    req: RequestView,
    context: Seq<ContextField>,
    name: Seq<char>,
)
    ensures
        forwarded(strangler, req, context).method == req.method,
        !names_a_field(context, name) && header_key(name) != header_key("host"@) ==> (forwarded(
            strangler,
            req,
            context,
        ).headers.dom().contains(header_key(name)) <==> req.headers.dom().contains(header_key(name))),
        !names_a_field(context, name) && header_key(name) != header_key("host"@) ==> forwarded(
            strangler,
            req,
            context,
        ).headers[header_key(name)] == req.headers[header_key(name)],
{
    law_fields_set(req.headers, context, name);
}

/// The `host` header is left as it is unless its rewriting was asked for. Rewriting never adds it, and
/// where it is there, it then names the strangled application.
pub proof fn law_host_header(
    strangler: StranglerView,
    req: RequestView,
    context: Seq<ContextField>,
)
    ensures
        !strangler.rewrite_host ==> forwarded(strangler, req, context).headers == fields_set(
            req.headers,
            context,
        ),
        !strangler.rewrite_host && !names_a_field(context, "host"@) ==> first_value(
            forwarded(strangler, req, context).headers,
            "host"@,
        ) == first_value(req.headers, "host"@),
        strangler.rewrite_host && !names_a_field(context, "host"@) ==> first_value(
            forwarded(strangler, req, context).headers,
            "host"@,
        ) == (match first_value(req.headers, "host"@) {
            Some(_) => Some(plain(encode_utf8(strangler.authority))),
            None => None,
        }),
        strangler.rewrite_host && names_a_field(context, "host"@) ==> first_value(
            forwarded(strangler, req, context).headers,
            "host"@,
        ) == Some(plain(encode_utf8(strangler.authority))),
{
    law_fields_set(req.headers, context, "host"@);
}

/// Without a tracing context and without rewriting, the headers of a request are forwarded as they came.
pub proof fn law_headers_are_passed_along(strangler: StranglerView, req: RequestView)
    requires
        !strangler.rewrite_host,
    ensures
        forwarded(strangler, req, Seq::empty()).headers == req.headers,
{
}

/// What fields make of the header with the key `key` does not depend on the headers from before, if one
/// of them has that key, and is what was there before, if none has.
proof fn lemma_fields_set_at(
    headers: HeaderContents,
    other: HeaderContents,
    fields: Seq<ContextField>,
    key: Seq<char>,
)
    ensures
        (exists|i: int| 0 <= i < fields.len() && header_key((#[trigger] fields[i]).0) == key) ==> {
            &&& fields_set(headers, fields).dom().contains(key)
            &&& fields_set(other, fields).dom().contains(key)
            &&& fields_set(headers, fields)[key] == fields_set(other, fields)[key]
            &&& fields_set(headers, fields)[key].len() == 1
        },
        (forall|i: int| 0 <= i < fields.len() ==> header_key((#[trigger] fields[i]).0) != key) ==> {
            &&& fields_set(headers, fields).dom().contains(key) <==> headers.dom().contains(key)
            &&& fields_set(other, fields).dom().contains(key) <==> other.dom().contains(key)
            &&& fields_set(headers, fields)[key] == headers[key]
            &&& fields_set(other, fields)[key] == other[key]
        },
    decreases fields.len(),
{
    if fields.len() > 0 {
        let shorter = fields.drop_last();
        let last = fields.len() - 1;
        lemma_fields_set_at(headers, other, shorter, key);
        assert(forall|i: int| 0 <= i < shorter.len() ==> shorter[i] == #[trigger] fields[i]);
        if header_key(fields[last].0) != key {
            if exists|i: int| 0 <= i < fields.len() && header_key((#[trigger] fields[i]).0) == key {
                let i = choose|i: int|
                    0 <= i < fields.len() && header_key((#[trigger] fields[i]).0) == key;
                assert(shorter[i] == fields[i]);
            }
        }
    }
}

/// Every name still has a value in the headers of a request that was forwarded, and in those of the
/// response to a request for a websocket.
pub proof fn law_names_keep_values(
    strangler: StranglerView,
    req: RequestView,
    context: Seq<ContextField>,
)
    requires
        every_name_has_a_value(req.headers),
    ensures
        every_name_has_a_value(forwarded(strangler, req, context).headers),
        every_name_has_a_value(upgraded(strangler, req).response.headers),
{
    let headers = forwarded(strangler, req, context).headers;
    let host = header_key("host"@);
    assert forall|key: Seq<char>| headers.dom().contains(key) implies (#[trigger] headers[key]).len()
        > 0 by {
        lemma_fields_set_at(req.headers, req.headers, context, key);
        if req.headers.dom().contains(key) {
            assert(req.headers[key].len() > 0);
        }
    }
}

/// A second strangler decides where a request goes, whatever a first one did to it.
pub proof fn law_last_strangler_decides_the_target(
    first: StranglerView,
    second: StranglerView,
    req: RequestView,
    context: Seq<ContextField>,
)
    requires
        req.original_uri is None,
        req.uri.path_and_query is Some,
    ensures
        forwarded(second, forwarded(first, req, context), context).uri == forwarded(
            second,
            req,
            context,
        ).uri,
{
}

/// Forwarding a request that was forwarded already, with the same tracing context, changes nothing.
pub proof fn law_forwarding_twice_is_forwarding_once(
    strangler: StranglerView,
    req: RequestView,
    context: Seq<ContextField>,
)
    requires
        req.asked_path_and_query() is Some,
    ensures
        forwarded(strangler, forwarded(strangler, req, context), context) == forwarded(
            strangler,
            req,
            context,
        ),
{
    let once = forwarded(strangler, req, context);
    let twice = forwarded(strangler, once, context);
    let host = header_key("host"@);
    assert forall|key: Seq<char>|
        (#[trigger] twice.headers.dom().contains(key) <==> once.headers.dom().contains(key)) && (
        once.headers.dom().contains(key) ==> twice.headers[key] == once.headers[key]) by {
        lemma_fields_set_at(req.headers, once.headers, context, key);
        lemma_fields_set_at(req.headers, once.headers, context, host);
        if key == host && once.headers.dom().contains(key) {
            assert(twice.headers[key] =~= once.headers[key]);
        }
    }
    assert(twice.headers =~= once.headers);
}

/// A lookup does not depend on the case of the name.
pub proof fn law_lookup_ignores_case(headers: HeaderContents, name: Seq<char>)
    ensures
        first_value(headers, header_key(name)) == first_value(headers, name),
{
    assert(header_key(header_key(name)) =~= header_key(name));
}

/// Changing the case of ASCII letters keeps bytes from ceasing to be UTF-8.
proof fn lemma_case_keeps_utf8(bytes: Seq<u8>, other: Seq<u8>)
    requires
        lower_bytes(bytes) == lower_bytes(other),
        valid_utf8(bytes),
    ensures
        valid_utf8(other),
    decreases bytes.len(),
{
    assert(lower_bytes(bytes).len() == bytes.len());
    assert(lower_bytes(other).len() == other.len());
    assert forall|i: int| 0 <= i < bytes.len() implies (#[trigger] bytes[i] == other[i] || bytes[i]
        < 128 && other[i] < 128) by {
        assert(lower_bytes(bytes)[i] == lower_byte(bytes[i]));
        assert(lower_bytes(other)[i] == lower_byte(other[i]));
    }
    if bytes.len() > 0 {
        let first = other[0];
        if bytes[0] < 128 {
            assert(first & 0x7f <= 0x7f) by (bit_vector);
        } else {
            assert(bytes[0] == other[0]);
            assert(bytes[1] == other[1]);
            if bytes[0] >= 0xe0 {
                assert(bytes[2] == other[2]);
            }
            if bytes[0] >= 0xf0 {
                assert(bytes[3] == other[3]);
            }
        }
        assert(valid_first_scalar(other));
        let rest = pop_first_scalar(bytes);
        let other_rest = pop_first_scalar(other);
        let n = length_of_first_scalar(bytes);
        assert(lower_bytes(rest) =~= lower_bytes(bytes).subrange(n, bytes.len() as int));
        assert(lower_bytes(other_rest) =~= lower_bytes(other).subrange(n, bytes.len() as int));
        lemma_case_keeps_utf8(rest, other_rest);
    }
}

/// Whether two lookups found values that differ in the case of ASCII letters at most, or both nothing.
pub open spec fn same_but_for_case(value: Option<Seq<u8>>, other: Option<Seq<u8>>) -> bool {
    match (value, other) {
        (Some(bytes), Some(other_bytes)) => lower_bytes(bytes) == lower_bytes(other_bytes),
        (None, None) => true,
        _ => false,
    }
}

/// The case of ASCII letters in header values has no part in the decision whether a request is taken
/// for a websocket.
pub proof fn law_websocket_decision_ignores_case(req: RequestView, other: RequestView)
    requires
        req.method == other.method,
        same_but_for_case(
            first_bytes(req.headers, "connection"@),
            first_bytes(other.headers, "connection"@),
        ),
        same_but_for_case(
            first_bytes(req.headers, "upgrade"@),
            first_bytes(other.headers, "upgrade"@),
        ),
        same_but_for_case(
            first_bytes(req.headers, "sec-websocket-version"@),
            first_bytes(other.headers, "sec-websocket-version"@),
        ),
    ensures
        asks_for_websocket(req) == asks_for_websocket(other),
{
    if let (Some(bytes), Some(other_bytes)) = (
        first_bytes(req.headers, "connection"@),
        first_bytes(other.headers, "connection"@),
    ) {
        if valid_utf8(bytes) {
            lemma_case_keeps_utf8(bytes, other_bytes);
        }
        if valid_utf8(other_bytes) {
            lemma_case_keeps_utf8(other_bytes, bytes);
        }
    }
}

/// The response to a request for a websocket reads back as what was put into it.
pub proof fn law_switched_response_reads_back(accept: Seq<char>, protocol: Option<FieldValue>)
    ensures
        switched(accept, protocol).status == SWITCHING_PROTOCOLS,
        first_value(switched(accept, protocol).headers, "connection"@) == Some(
            plain(encode_utf8("upgrade"@)),
        ),
        first_value(switched(accept, protocol).headers, "upgrade"@) == Some(
            plain(encode_utf8("websocket"@)),
        ),
        first_value(switched(accept, protocol).headers, "sec-websocket-accept"@) == Some(
            plain(encode_utf8(accept)),
        ),
        first_value(switched(accept, protocol).headers, "sec-websocket-protocol"@) == protocol,
{
    reveal_strlit("connection");
    reveal_strlit("upgrade");
    reveal_strlit("sec-websocket-accept");
    reveal_strlit("sec-websocket-protocol");
    assert(header_key("connection"@).len() == 10);
    assert(header_key("upgrade"@).len() == 7);
    assert(header_key("sec-websocket-accept"@).len() == 20);
    assert(header_key("sec-websocket-protocol"@).len() == 22);
}

} // verus!
