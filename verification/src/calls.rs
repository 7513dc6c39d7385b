//! What each call gives, told from what goes into it and what comes out of it.
use crate::builder::StranglerBuilder;
use crate::headers::{
    check_header_name, check_header_value, first_bytes, first_value, header_contents, header_key,
    is_header_name, is_header_name_char, is_header_value, is_header_value_byte, lower_char,
    FieldValue, HeaderContents,
};
use crate::inner::relay::{relay_step, source_event, RelayAction, RelayEvent, RelayState};
use crate::inner::tracing_opentelemetry_text_map_propagation::{
    are_header_fields, check_inject, field_views, fields_set,
    inject_opentelemetry_context_into_request, is_header_field,
};
use crate::inner::websocket::{
    accept_of, base64_digit, base64_text, byte_or_zero, check_upgrade, header_contains, header_eq,
    is_websocket_upgrade, lower_byte, lower_bytes, sha1_digest, sign, stands_at, stands_in, switched,
    switching_protocols, upgraded, WebSocketUpgrade,
};
use crate::inner::{check_forward, Forwarding, InnerStranglerService, StranglerView};
use crate::message::{HttpVersion, Request, Response};
use crate::uri::{is_authority, path_and_query_of, Authority, PathAndQuery, UriError};
use crate::{HttpScheme, Strangler, WebSocketScheme};
use vstd::arithmetic::div_mod::lemma_fundamental_div_mod_converse;
use vstd::prelude::*;
use vstd::utf8::*;

verus! {

/// `text` with every capital ASCII letter made small.
pub open spec fn small(text: Seq<char>) -> Seq<char> {
    Seq::new(
        text.len(),
        |i: int|
            if 65 <= text[i] as int && text[i] as int <= 90 {
                (text[i] as int + 32) as char
            } else {
                text[i]
            },
    )
}

/// A header map records a name in small letters.
pub proof fn lemma_small_is_key(text: Seq<char>)
    ensures
        header_key(text) == small(text),
{
    assert forall|i: int| 0 <= i < text.len() implies #[trigger] header_key(text)[i] == small(
        text,
    )[i] by {
        let c = text[i];
        assert(header_key(text)[i] == lower_char(c));
    }
    assert(header_key(text) =~= small(text));
}

/// Small letters are told letter by letter: a capital becomes the letter 32 places on, and anything else
/// stays.
pub proof fn law_small_letters(text: Seq<char>, i: int)
    requires
        0 <= i < text.len(),
    ensures
        small(text).len() == text.len(),
        'A' <= text[i] && text[i] <= 'Z' ==> small(text)[i] as int == text[i] as int + 32,
        !('A' <= text[i] && text[i] <= 'Z') ==> small(text)[i] == text[i],
        header_key(text).len() == text.len(),
        'A' <= text[i] && text[i] <= 'Z' ==> header_key(text)[i] as int == text[i] as int + 32,
        !('A' <= text[i] && text[i] <= 'Z') ==> header_key(text)[i] == text[i],
{
    lemma_small_is_key(text);
}

// The builder.

/// A builder, and a strangler made without one, has the authority that it was given, plain HTTP, plain
/// websockets, and the host header left as it is.
pub proof fn law_defaults(
    authority: Authority,
    builder: StranglerBuilder,
    other_builder: StranglerBuilder,
    strangler: Strangler,
)
    requires
        call_ensures(StranglerBuilder::new, (authority,), builder),
        call_ensures(Strangler::builder, (authority,), other_builder),
        call_ensures(Strangler::new, (authority,), strangler),
    ensures
        builder@.authority == authority@,
        builder@.http_scheme == HttpScheme::HTTP,
        builder@.web_socket_scheme == WebSocketScheme::WS,
        builder@.rewrite_host == false,
        other_builder@.authority == authority@,
        other_builder@.http_scheme == HttpScheme::HTTP,
        other_builder@.web_socket_scheme == WebSocketScheme::WS,
        other_builder@.rewrite_host == false,
        strangler@.authority == authority@,
        strangler@.http_scheme == HttpScheme::HTTP,
        strangler@.web_socket_scheme == WebSocketScheme::WS,
        strangler@.rewrite_host == false,
{
}

/// Setting the scheme for requests sets it to what was asked for, and nothing else.
pub proof fn law_http_scheme_is_set(
    before: StranglerBuilder,
    http_scheme: HttpScheme,
    after: StranglerBuilder,
)
    requires
        call_ensures(StranglerBuilder::with_http_scheme, (before, http_scheme), after),
    ensures
        after@.http_scheme == http_scheme,
        after@.authority == before@.authority,
        after@.web_socket_scheme == before@.web_socket_scheme,
        after@.rewrite_host == before@.rewrite_host,
{
}

/// Setting the scheme for websockets sets it to what was asked for, and nothing else.
pub proof fn law_web_socket_scheme_is_set(
    before: StranglerBuilder,
    web_socket_scheme: WebSocketScheme,
    after: StranglerBuilder,
)
    requires
        call_ensures(StranglerBuilder::with_web_socket_scheme, (before, web_socket_scheme), after),
    ensures
        after@.web_socket_scheme == web_socket_scheme,
        after@.authority == before@.authority,
        after@.http_scheme == before@.http_scheme,
        after@.rewrite_host == before@.rewrite_host,
{
}

/// Choosing whether the host header is rewritten sets that, and nothing else.
pub proof fn law_host_rewriting_is_set(
    before: StranglerBuilder,
    rewrite_host: bool,
    after: StranglerBuilder,
)
    requires
        call_ensures(
            StranglerBuilder::rewrite_strangled_request_host_header,
            (before, rewrite_host),
            after,
        ),
    ensures
        after@.rewrite_host == rewrite_host,
        after@.authority == before@.authority,
        after@.http_scheme == before@.http_scheme,
        after@.web_socket_scheme == before@.web_socket_scheme,
{
}

/// A strangler has the options of its builder, a clone those of the strangler that it came from, and a
/// service those that it was given.
pub proof fn law_options_are_taken_over(
    builder: StranglerBuilder,
    strangler: Strangler,
    copy: Strangler,
    service: InnerStranglerService,
    service_copy: InnerStranglerService,
    authority: Authority,
    http_scheme: HttpScheme,
    web_socket_scheme: WebSocketScheme,
    rewrite_host: bool,
)
    requires
        call_ensures(StranglerBuilder::build, (builder,), strangler),
        call_ensures(Strangler::clone, (&strangler,), copy),
        call_ensures(
            InnerStranglerService::new,
            (authority, http_scheme, web_socket_scheme, rewrite_host),
            service,
        ),
        call_ensures(InnerStranglerService::clone, (&service,), service_copy),
    ensures
        strangler@.authority == builder@.authority,
        strangler@.http_scheme == builder@.http_scheme,
        strangler@.web_socket_scheme == builder@.web_socket_scheme,
        strangler@.rewrite_host == builder@.rewrite_host,
        copy@.authority == strangler@.authority,
        copy@.http_scheme == strangler@.http_scheme,
        copy@.web_socket_scheme == strangler@.web_socket_scheme,
        copy@.rewrite_host == strangler@.rewrite_host,
        service@.authority == authority@,
        service@.http_scheme == http_scheme,
        service@.web_socket_scheme == web_socket_scheme,
        service@.rewrite_host == rewrite_host,
        service_copy@.authority == authority@,
        service_copy@.http_scheme == http_scheme,
        service_copy@.web_socket_scheme == web_socket_scheme,
        service_copy@.rewrite_host == rewrite_host,
{
}

// Parts of a URI.

/// An authority reads as it was written, and so does its clone. What is refused is refused as an
/// authority.
pub proof fn law_authority_is_kept(
    text: &str,
    parsed: Result<Authority, UriError>,
    authority: Authority,
    copy: Authority,
    read: &str,
    copy_read: &str,
)
    requires
        call_ensures(Authority::parse, (text,), parsed),
        parsed is Ok ==> authority == parsed->Ok_0,
        call_ensures(Authority::clone, (&authority,), copy),
        call_ensures(Authority::as_str, (&authority,), read),
        call_ensures(Authority::as_str, (&copy,), copy_read),
    ensures
        parsed is Ok <==> is_authority(text@),
        parsed is Ok ==> read@ == text@ && copy_read@ == text@ && authority@ == text@,
        parsed is Err ==> parsed->Err_0 == UriError::Authority,
{
}

/// A path and query reads as `http` reads it, and so does its clone. What is refused is refused as a
/// path and query.
pub proof fn law_path_and_query_is_kept(
    text: &str,
    parsed: Result<PathAndQuery, UriError>,
    path_and_query: PathAndQuery,
    copy: PathAndQuery,
    read: &str,
    copy_read: &str,
)
    requires
        call_ensures(PathAndQuery::parse, (text,), parsed),
        parsed is Ok ==> path_and_query == parsed->Ok_0,
        call_ensures(PathAndQuery::clone, (&path_and_query,), copy),
        call_ensures(PathAndQuery::as_str, (&path_and_query,), read),
        call_ensures(PathAndQuery::as_str, (&copy,), copy_read),
    ensures
        parsed is Ok <==> path_and_query_of(text@) is Some,
        parsed is Ok ==> path_and_query_of(text@) == Some(read@) && copy_read@ == read@
            && path_and_query@ == read@,
        parsed is Err ==> parsed->Err_0 == UriError::PathAndQuery,
{
}

// Header names and values.

/// A header name is made of letters, digits and the signs that may stand in one, between one and 65535
/// of them.
pub proof fn law_check_header_name(name: &str, r: bool)
    requires
        call_ensures(check_header_name, (name,), r),
    ensures
        r <==> (1 <= name@.len() <= 65535 && forall|i: int|
            0 <= i < name@.len() ==> {
                let c = #[trigger] name@[i] as int;
                33 <= c <= 39 || c == 42 || c == 43 || c == 45 || c == 46 || 48 <= c <= 57 || 65 <= c
                    <= 90 || 94 <= c <= 122 || c == 124 || c == 126
            }),
{
    assert forall|i: int| 0 <= i < name@.len() implies (is_header_name_char(#[trigger] name@[i])
        <==> {
        let c = name@[i] as int;
        33 <= c <= 39 || c == 42 || c == 43 || c == 45 || c == 46 || 48 <= c <= 57 || 65 <= c <= 90
            || 94 <= c <= 122 || c == 124 || c == 126
    }) by {}
}

/// A header value holds no control byte but the tab.
pub proof fn law_check_header_value(value: &[u8], r: bool)
    requires
        call_ensures(check_header_value, (value,), r),
    ensures
        r <==> forall|i: int|
            0 <= i < value@.len() ==> (#[trigger] value@[i] == 9 || 32 <= value@[i] <= 126 || 128
                <= value@[i]),
{
    assert forall|i: int| 0 <= i < value@.len() implies (is_header_value_byte(#[trigger] value@[i])
        <==> (value@[i] == 9 || 32 <= value@[i] <= 126 || 128 <= value@[i])) by {}
}

/// Two rows of bytes with equal small letters differ in the case of letters at most.
proof fn lemma_same_letters(a: Seq<u8>, b: Seq<u8>)
    ensures
        lower_bytes(a) == lower_bytes(b) <==> (a.len() == b.len() && forall|i: int|
            0 <= i < a.len() ==> (#[trigger] a[i] == b[i] || 65 <= a[i] <= 90 && b[i] == a[i] + 32
                || 65 <= b[i] <= 90 && a[i] == b[i] + 32)),
{
    if lower_bytes(a) == lower_bytes(b) {
        assert(lower_bytes(a).len() == a.len());
        assert(lower_bytes(b).len() == b.len());
        assert forall|i: int| 0 <= i < a.len() implies (#[trigger] a[i] == b[i] || 65 <= a[i] <= 90
            && b[i] == a[i] + 32 || 65 <= b[i] <= 90 && a[i] == b[i] + 32) by {
            assert(lower_bytes(a)[i] == lower_byte(a[i]));
            assert(lower_bytes(b)[i] == lower_byte(b[i]));
        }
    } else if a.len() == b.len() && forall|i: int|
        0 <= i < a.len() ==> (#[trigger] a[i] == b[i] || 65 <= a[i] <= 90 && b[i] == a[i] + 32 || 65
            <= b[i] <= 90 && a[i] == b[i] + 32) {
        assert forall|i: int| 0 <= i < a.len() implies lower_bytes(a)[i] == lower_bytes(b)[i] by {
            assert(a[i] == b[i] || 65 <= a[i] <= 90 && b[i] == a[i] + 32 || 65 <= b[i] <= 90 && a[i]
                == b[i] + 32);
        }
        assert(lower_bytes(a) =~= lower_bytes(b));
    }
}

/// Whether `needle` stands at `at` in `bytes` once every capital ASCII letter is made small.
pub open spec fn reads_small(bytes: Seq<u8>, needle: Seq<u8>, at: int) -> bool {
    0 <= at && at + needle.len() <= bytes.len() && forall|j: int|
        0 <= j < needle.len() ==> #[trigger] needle[j] == if 65 <= bytes[at + j] <= 90 {
            bytes[at + j] + 32
        } else {
            bytes[at + j] as int
        }
}

/// What reads small at a place has each of its bytes there, or, where it has a small letter, perhaps the
/// capital.
pub proof fn law_reads_small(bytes: Seq<u8>, needle: Seq<u8>, at: int)
    ensures
        reads_small(bytes, needle, at) <==> (0 <= at && at + needle.len() <= bytes.len() && forall|
            j: int,
        |
            0 <= j < needle.len() ==> (#[trigger] needle[j] == bytes[at + j] && !(65 <= needle[j]
                <= 90) || 97 <= needle[j] <= 122 && bytes[at + j] == needle[j] - 32)),
{
}

/// `needle` stands at `at` in the small letters of `bytes` if each of its bytes is the small form of the
/// byte there.
proof fn lemma_stands_small(bytes: Seq<u8>, needle: Seq<u8>, at: int)
    ensures
        stands_at(lower_bytes(bytes), needle, at) == reads_small(bytes, needle, at),
{
    let lower = lower_bytes(bytes);
    if 0 <= at && at + needle.len() <= bytes.len() {
        let there = lower.subrange(at, at + needle.len());
        assert forall|j: int| 0 <= j < needle.len() implies #[trigger] there[j] as int == (if 65
            <= bytes[at + j] <= 90 {
            bytes[at + j] + 32
        } else {
            bytes[at + j] as int
        }) by {
            assert(there[j] == lower[at + j]);
            assert(lower[at + j] == lower_byte(bytes[at + j]));
        }
        if there == needle {
            assert forall|j: int| 0 <= j < needle.len() implies #[trigger] needle[j] == (if 65
                <= bytes[at + j] <= 90 {
                bytes[at + j] + 32
            } else {
                bytes[at + j] as int
            }) by {
                assert(there[j] == needle[j]);
            }
        } else if reads_small(bytes, needle, at) {
            assert forall|j: int| 0 <= j < needle.len() implies there[j] == needle[j] by {
                assert(there[j] as int == needle[j] as int);
            }
            assert(there =~= needle);
        }
    }
}

/// What stands in the small letters of `bytes` reads small at some place.
proof fn lemma_stands_in_small(bytes: Seq<u8>, needle: Seq<u8>)
    ensures
        stands_in(lower_bytes(bytes), needle) <==> exists|at: int| reads_small(bytes, needle, at),
{
    if stands_in(lower_bytes(bytes), needle) {
        let at = choose|at: int| stands_at(lower_bytes(bytes), needle, at);
        lemma_stands_small(bytes, needle, at);
        assert(reads_small(bytes, needle, at));
    }
    if exists|at: int| reads_small(bytes, needle, at) {
        let at = choose|at: int| reads_small(bytes, needle, at);
        lemma_stands_small(bytes, needle, at);
        assert(stands_at(lower_bytes(bytes), needle, at));
    }
}

/// A header equals a value if it is recorded under the key in small letters and its oldest value has the
/// bytes of that value, but for the case of letters.
pub proof fn law_header_eq(
    headers: &http::HeaderMap<http::HeaderValue>,
    key: &str,
    value: &str,
    is_name: bool,
    r: bool,
)
    requires
        call_ensures(header_eq, (headers, key, value), r),
        call_ensures(check_header_name, (key,), is_name),
    ensures
        r <==> is_name && header_contents(*headers).dom().contains(small(key@)) && {
            let a = header_contents(*headers)[small(key@)][0].bytes;
            let b = encode_utf8(value@);
            a.len() == b.len() && forall|i: int|
                0 <= i < a.len() ==> (#[trigger] a[i] == b[i] || 65 <= a[i] <= 90 && b[i] == a[i] + 32
                    || 65 <= b[i] <= 90 && a[i] == b[i] + 32)
        },
{
    lemma_small_is_key(key@);
    lemma_same_letters(
        header_contents(*headers)[small(key@)][0].bytes,
        encode_utf8(value@),
    );
}

/// A header holds a value if it is recorded under the key in small letters, its oldest value is UTF-8,
/// and the bytes of the value stand somewhere in it once its letters are made small.
pub proof fn law_header_contains(
    headers: &http::HeaderMap<http::HeaderValue>,
    key: &str,
    value: &str,
    is_name: bool,
    r: bool,
)
    requires
        call_ensures(header_contains, (headers, key, value), r),
        call_ensures(check_header_name, (key,), is_name),
    ensures
        r <==> is_name && header_contents(*headers).dom().contains(small(key@)) && {
            let bytes = header_contents(*headers)[small(key@)][0].bytes;
            let needle = encode_utf8(value@);
            valid_utf8(bytes) && exists|at: int| reads_small(bytes, needle, at)
        },
{
    lemma_small_is_key(key@);
    let bytes = header_contents(*headers)[small(key@)][0].bytes;
    let needle = encode_utf8(value@);
    lemma_stands_in_small(bytes, needle);
}

// Websocket handshakes.

/// The names of headers that are spelled out in the library are in small letters, and differ.
proof fn lemma_names()
    ensures
        is_header_name("connection"@) && header_key("connection"@) == "connection"@,
        is_header_name("upgrade"@) && header_key("upgrade"@) == "upgrade"@,
        is_header_name("sec-websocket-version"@) && header_key("sec-websocket-version"@)
            == "sec-websocket-version"@,
        is_header_name("sec-websocket-key"@) && header_key("sec-websocket-key"@)
            == "sec-websocket-key"@,
        is_header_name("sec-websocket-accept"@) && header_key("sec-websocket-accept"@)
            == "sec-websocket-accept"@,
        is_header_name("sec-websocket-protocol"@) && header_key("sec-websocket-protocol"@)
            == "sec-websocket-protocol"@,
        is_header_name("host"@) && header_key("host"@) == "host"@,
        "connection"@.len() == 10,
        "upgrade"@.len() == 7,
        "sec-websocket-accept"@.len() == 20,
        "sec-websocket-protocol"@.len() == 22,
{
    reveal_strlit("connection");
    reveal_strlit("upgrade");
    reveal_strlit("sec-websocket-version");
    reveal_strlit("sec-websocket-key");
    reveal_strlit("sec-websocket-accept");
    reveal_strlit("sec-websocket-protocol");
    reveal_strlit("host");
    assert(header_key("connection"@) =~= "connection"@);
    assert(header_key("upgrade"@) =~= "upgrade"@);
    assert(header_key("sec-websocket-version"@) =~= "sec-websocket-version"@);
    assert(header_key("sec-websocket-key"@) =~= "sec-websocket-key"@);
    assert(header_key("sec-websocket-accept"@) =~= "sec-websocket-accept"@);
    assert(header_key("sec-websocket-protocol"@) =~= "sec-websocket-protocol"@);
    assert(header_key("host"@) =~= "host"@);
}

/// A request is taken for a websocket if and only if it is a `GET`, its oldest `connection` value is
/// UTF-8 and reads `upgrade` somewhere, its oldest `upgrade` value is `websocket`, and its oldest
/// `sec-websocket-version` value is `13`, all but for the case of letters.
pub proof fn law_is_websocket_upgrade(req: Request, r: bool)
    requires
        call_ensures(is_websocket_upgrade, (&req,), r),
    ensures
        r <==> {
            let headers = header_contents(req.headers);
            &&& req.method@ == "GET"@
            &&& headers.dom().contains("connection"@)
            &&& valid_utf8(headers["connection"@][0].bytes)
            &&& exists|at: int|
                reads_small(headers["connection"@][0].bytes, encode_utf8("upgrade"@), at)
            &&& headers.dom().contains("upgrade"@)
            &&& headers["upgrade"@][0].bytes.len() == 9
            &&& reads_small(headers["upgrade"@][0].bytes, encode_utf8("websocket"@), 0)
            &&& headers.dom().contains("sec-websocket-version"@)
            &&& headers["sec-websocket-version"@][0].bytes == encode_utf8("13"@)
        },
{
    let headers = header_contents(req.headers);
    lemma_names();
    lemma_stands_in_small(headers["connection"@][0].bytes, encode_utf8("upgrade"@));
    let upgrade = headers["upgrade"@][0].bytes;
    let version = headers["sec-websocket-version"@][0].bytes;
    reveal_strlit("websocket");
    reveal_strlit("13");
    is_ascii_chars_encode_utf8("websocket"@);
    is_ascii_chars_encode_utf8("13"@);
    let websocket = encode_utf8("websocket"@);
    let thirteen = encode_utf8("13"@);
    assert(is_ascii_chars("websocket"@));
    assert(is_ascii_chars("13"@));
    assert(websocket.len() == 9);
    assert(thirteen.len() == 2);
    assert forall|i: int| 0 <= i < 9 implies 97 <= #[trigger] websocket[i] <= 122 by {
        assert("websocket"@[i] as u8 == websocket[i]);
        assert('a' <= "websocket"@[i] && "websocket"@[i] <= 'z');
    }
    assert("13"@[0] as u8 == thirteen[0] && "13"@[1] as u8 == thirteen[1]);
    lemma_same_letters(upgrade, websocket);
    lemma_same_letters(version, thirteen);
    if upgrade.len() == 9 && lower_bytes(upgrade) == lower_bytes(websocket) {
        assert forall|j: int| 0 <= j < 9 implies #[trigger] websocket[j] == (if 65 <= upgrade[0 + j]
            <= 90 {
            upgrade[0 + j] + 32
        } else {
            upgrade[0 + j] as int
        }) by {
            assert(upgrade[j] == upgrade[0 + j]);
        }
    }
    if upgrade.len() == 9 && reads_small(upgrade, websocket, 0) {
        assert forall|i: int| 0 <= i < 9 implies (#[trigger] upgrade[i] == websocket[i] || 65
            <= upgrade[i] <= 90 && websocket[i] == upgrade[i] + 32 || 65 <= websocket[i] <= 90
            && upgrade[i] == websocket[i] + 32) by {
            assert(upgrade[0 + i] == upgrade[i]);
            assert(websocket[i] == if 65 <= upgrade[0 + i] <= 90 {
                upgrade[0 + i] + 32
            } else {
                upgrade[0 + i] as int
            });
        }
    }
    if lower_bytes(version) == lower_bytes(thirteen) {
        assert(version[0] == thirteen[0] && version[1] == thirteen[1]);
        assert(version =~= thirteen);
    }
}

/// A request that lacks the method, or any of the headers that a handshake takes, is not taken for a
/// websocket.
pub proof fn law_ordinary_requests_are_no_handshakes(req: Request, r: bool)
    requires
        call_ensures(is_websocket_upgrade, (&req,), r),
        req.method@ != "GET"@ || !header_contents(req.headers).dom().contains("connection"@)
            || !header_contents(req.headers).dom().contains("upgrade"@) || !header_contents(
            req.headers,
        ).dom().contains("sec-websocket-version"@),
    ensures
        !r,
{
    law_is_websocket_upgrade(req, r);
}

/// The signature of a key is the base64 of the SHA-1 digest of the key and the GUID behind it.
pub proof fn law_sign(key: &[u8], accept: String)
    requires
        call_ensures(sign, (key,), accept),
    ensures
        accept@ == base64_text(
            sha1_digest(key@ + encode_utf8("258EAFA5-E914-47DA-95CA-C5AB0DC85B11"@)),
        ),
        accept@.len() == 28,
        accept@[27] == '=',
        forall|i: int| 0 <= i < 27 ==> #[trigger] accept@[i] != '=',
        key@.len() + 36 < 0x2000_0000_0000_0000 ==> call_requires(sign, (key,)),
{
}

/// The number that a digit of base64 stands for.
pub open spec fn digit_value(c: char) -> int {
    if 'A' <= c && c <= 'Z' {
        c as int - 'A' as int
    } else if 'a' <= c && c <= 'z' {
        c as int - 'a' as int + 26
    } else if '0' <= c && c <= '9' {
        c as int - '0' as int + 52
    } else if c == '+' {
        62
    } else {
        63
    }
}

/// The digits of base64 stand for the numbers below 64.
proof fn lemma_digit_value(value: int)
    requires
        0 <= value < 64,
    ensures
        digit_value(base64_digit(value)) == value,
        base64_digit(value) != '=',
{
}

/// Three bytes, read as one number, fall into four numbers of six bits.
proof fn lemma_six_bits(x: int, y: int, z: int)
    requires
        0 <= x < 256,
        0 <= y < 256,
        0 <= z < 256,
    ensures
        (x * 65536 + y * 256 + z) / 262144 == x / 4,
        (x * 65536 + y * 256 + z) / 4096 % 64 == x % 4 * 16 + y / 16,
        (x * 65536 + y * 256 + z) / 64 % 64 == y % 16 * 4 + z / 64,
        (x * 65536 + y * 256 + z) % 64 == z % 64,
{
    let three = x * 65536 + y * 256 + z;
    lemma_fundamental_div_mod_converse(three, 262144, x / 4, x % 4 * 65536 + y * 256 + z);
    lemma_fundamental_div_mod_converse(three, 4096, x * 16 + y / 16, y % 16 * 256 + z);
    lemma_fundamental_div_mod_converse(x * 16 + y / 16, 64, x / 4, x % 4 * 16 + y / 16);
    lemma_fundamental_div_mod_converse(three, 64, x * 1024 + y * 4 + z / 64, z % 64);
    lemma_fundamental_div_mod_converse(
        x * 1024 + y * 4 + z / 64,
        64,
        x * 16 + y / 16,
        y % 16 * 4 + z / 64,
    );
}

/// Base64 reads back: the four characters that begin at every fourth place give the three bytes that
/// begin at every third, and where bytes are missing at the end, so are digits.
pub proof fn law_base64_reads_back(data: Seq<u8>, group: int)
    requires
        0 <= group,
        3 * group < data.len(),
    ensures
        base64_text(data).len() == (data.len() + 2) / 3 * 4,
        ({
            let text = base64_text(data);
            let a = digit_value(text[4 * group]);
            let b = digit_value(text[4 * group + 1]);
            let c = digit_value(text[4 * group + 2]);
            let d = digit_value(text[4 * group + 3]);
            let left = data.len() - 3 * group;
            &&& text[4 * group] != '=' && text[4 * group + 1] != '='
            &&& data[3 * group] == a * 4 + b / 16
            &&& left == 1 ==> b % 16 == 0 && text[4 * group + 2] == '=' && text[4 * group + 3] == '='
            &&& left >= 2 ==> text[4 * group + 2] != '=' && data[3 * group + 1] == b % 16 * 16 + c / 4
            &&& left == 2 ==> c % 4 == 0 && text[4 * group + 3] == '='
            &&& left >= 3 ==> text[4 * group + 3] != '=' && data[3 * group + 2] == c % 4 * 64 + d
        }),
{
    let text = base64_text(data);
    let i = 4 * group;
    let x = byte_or_zero(data, group * 3);
    let y = byte_or_zero(data, group * 3 + 1);
    let z = byte_or_zero(data, group * 3 + 2);
    lemma_six_bits(x, y, z);
    lemma_digit_value(x / 4);
    lemma_digit_value(x % 4 * 16 + y / 16);
    lemma_digit_value(y % 16 * 4 + z / 64);
    lemma_digit_value(z % 64);
    assert(i / 4 == group && i % 4 == 0);
    assert((i + 1) / 4 == group && (i + 1) % 4 == 1);
    assert((i + 2) / 4 == group && (i + 2) % 4 == 2);
    assert((i + 3) / 4 == group && (i + 3) % 4 == 3);
    assert(i + 3 < text.len());
    assert(text[i] == base64_digit(x / 4));
    assert(text[i + 1] == base64_digit(x % 4 * 16 + y / 16));
    let left = data.len() - 3 * group;
    if left >= 2 {
        assert(text[i + 2] == base64_digit(y % 16 * 4 + z / 64));
    }
    if left >= 3 {
        assert(text[i + 3] == base64_digit(z % 64));
    }
}

/// The response to a handshake is an HTTP/1.1 response that switches protocols, with the three headers of
/// a handshake, the protocol of the client where it named one, and nothing else.
proof fn lemma_switched(
    client: HeaderContents,
    accept: Seq<char>,
    response: Response,
)
    requires
        response@ == switched(accept, first_value(client, "sec-websocket-protocol"@)),
    ensures
        response.version == HttpVersion::Http11,
        response.status == 101,
        !response.extended,
        forall|name: Seq<char>|
            #[trigger] header_contents(response.headers).dom().contains(name) <==> (name
                == "connection"@ || name == "upgrade"@ || name == "sec-websocket-accept"@ || name
                == "sec-websocket-protocol"@ && client.dom().contains("sec-websocket-protocol"@)),
        header_contents(response.headers)["connection"@] == seq![
            (FieldValue { bytes: encode_utf8("upgrade"@), sensitive: false }),
        ],
        header_contents(response.headers)["upgrade"@] == seq![
            (FieldValue { bytes: encode_utf8("websocket"@), sensitive: false }),
        ],
        header_contents(response.headers)["sec-websocket-accept"@] == seq![
            (FieldValue { bytes: encode_utf8(accept), sensitive: false }),
        ],
        client.dom().contains("sec-websocket-protocol"@) ==> header_contents(
            response.headers,
        )["sec-websocket-protocol"@] == seq![client["sec-websocket-protocol"@][0]],
{
    lemma_names();
}

/// The response that switches a connection over to a websocket carries the signature that it is given and
/// the oldest protocol that the client named, with its bytes and its mark.
pub proof fn law_switching_protocols(
    accept: &str,
    client: &http::HeaderMap<http::HeaderValue>,
    response: Response,
)
    requires
        call_ensures(switching_protocols, (accept, client), response),
    ensures
        response.version == HttpVersion::Http11,
        response.status == 101,
        !response.extended,
        forall|name: Seq<char>|
            #[trigger] header_contents(response.headers).dom().contains(name) <==> (name
                == "connection"@ || name == "upgrade"@ || name == "sec-websocket-accept"@ || name
                == "sec-websocket-protocol"@ && header_contents(*client).dom().contains(
                "sec-websocket-protocol"@,
            )),
        header_contents(response.headers)["connection"@] == seq![
            (FieldValue { bytes: encode_utf8("upgrade"@), sensitive: false }),
        ],
        header_contents(response.headers)["upgrade"@] == seq![
            (FieldValue { bytes: encode_utf8("websocket"@), sensitive: false }),
        ],
        header_contents(response.headers)["sec-websocket-accept"@] == seq![
            (FieldValue { bytes: encode_utf8(accept@), sensitive: false }),
        ],
        header_contents(*client).dom().contains("sec-websocket-protocol"@) ==> header_contents(
            response.headers,
        )["sec-websocket-protocol"@] == seq![header_contents(*client)["sec-websocket-protocol"@][0]],
        (forall|k: int|
            0 <= k < encode_utf8(accept@).len() ==> {
                let b = #[trigger] encode_utf8(accept@)[k];
                b == 9 || 32 <= b <= 126 || 128 <= b
            }) ==> call_requires(switching_protocols, (accept, client)),
{
    lemma_switched(header_contents(*client), accept@, response);
    lemma_value_by_code(encode_utf8(accept@));
}

/// What is decided upon a handshake: connect to the strangled application, over the websocket scheme that
/// was chosen, with the path and query of the request's own URI; and answer with the signature of the
/// client's key, behind which the GUID is put, and with the protocol that the client named.
pub proof fn law_upgrade(
    strangler: Strangler,
    service: InnerStranglerService,
    options: StranglerView,
    req: Request,
    context: Vec<(String, String)>,
    upgrade: WebSocketUpgrade,
)
    requires
        options == strangler@ && call_ensures(
            Strangler::forward_to_strangled,
            (&strangler, req, context),
            Forwarding::WebSocket(upgrade),
        ) || options == service@ && call_ensures(
            InnerStranglerService::forward_call_to_strangled,
            (&service, req, context),
            Forwarding::WebSocket(upgrade),
        ) || options == service@ && call_ensures(
            InnerStranglerService::handle_websocket_upgrade_request,
            (&service, req),
            Ok(upgrade),
        ),
    ensures
        upgrade.uri.scheme is Some,
        options.web_socket_scheme == WebSocketScheme::WS ==> upgrade.uri.scheme->0@ == "ws"@,
        options.web_socket_scheme == WebSocketScheme::WSS ==> upgrade.uri.scheme->0@ == "wss"@,
        upgrade.uri.authority is Some,
        upgrade.uri.authority->0@ == options.authority,
        upgrade.uri.path_and_query is Some,
        req.uri.path_and_query is Some ==> upgrade.uri.path_and_query->0@
            == req.uri.path_and_query->0@,
        upgrade.response.version == HttpVersion::Http11,
        upgrade.response.status == 101,
        !upgrade.response.extended,
        forall|name: Seq<char>|
            #[trigger] header_contents(upgrade.response.headers).dom().contains(name) <==> (name
                == "connection"@ || name == "upgrade"@ || name == "sec-websocket-accept"@ || name
                == "sec-websocket-protocol"@ && header_contents(req.headers).dom().contains(
                "sec-websocket-protocol"@,
            )),
        header_contents(upgrade.response.headers)["connection"@] == seq![
            (FieldValue { bytes: encode_utf8("upgrade"@), sensitive: false }),
        ],
        header_contents(upgrade.response.headers)["upgrade"@] == seq![
            (FieldValue { bytes: encode_utf8("websocket"@), sensitive: false }),
        ],
        header_contents(req.headers).dom().contains("sec-websocket-key"@) ==> header_contents(
            upgrade.response.headers,
        )["sec-websocket-accept"@] == seq![
            (FieldValue {
                bytes: encode_utf8(
                    base64_text(
                        sha1_digest(
                            header_contents(req.headers)["sec-websocket-key"@][0].bytes + encode_utf8(
                                "258EAFA5-E914-47DA-95CA-C5AB0DC85B11"@,
                            ),
                        ),
                    ),
                ),
                sensitive: false,
            }),
        ],
        header_contents(req.headers).dom().contains("sec-websocket-protocol"@) ==> header_contents(
            upgrade.response.headers,
        )["sec-websocket-protocol"@] == seq![
            header_contents(req.headers)["sec-websocket-protocol"@][0],
        ],
{
    lemma_names();
    assert(upgrade@ == upgraded(options, req@));
    lemma_switched(
        header_contents(req.headers),
        accept_of(first_bytes(req@.headers, "sec-websocket-key"@)->0),
        upgrade.response,
    );
}

/// A request is connected as a websocket if and only if it is taken for one, and a request that is not
/// is handed back as it came.
pub proof fn law_websockets_and_no_others_are_connected(
    strangler: Strangler,
    service: InnerStranglerService,
    options: StranglerView,
    req: Request,
    context: Vec<(String, String)>,
    forwarding: Forwarding,
    handled: Result<WebSocketUpgrade, Request>,
    taken: bool,
)
    requires
        options == strangler@ && call_ensures(
            Strangler::forward_to_strangled,
            (&strangler, req, context),
            forwarding,
        ) || options == service@ && call_ensures(
            InnerStranglerService::forward_call_to_strangled,
            (&service, req, context),
            forwarding,
        ),
        call_ensures(
            InnerStranglerService::handle_websocket_upgrade_request,
            (&service, req),
            handled,
        ),
        call_ensures(is_websocket_upgrade, (&req,), taken),
    ensures
        forwarding is WebSocket <==> taken,
        forwarding is Http <==> !taken,
        handled is Ok <==> taken,
        !taken ==> handled == Err::<WebSocketUpgrade, Request>(req),
{
}

// Forwarded requests.

/// A request goes to the strangled application: over the scheme that was chosen, under its authority, and
/// with the path and query of the original URI, where one was recorded, and else of the request's own,
/// character for character.
pub proof fn law_target(
    strangler: Strangler,
    service: InnerStranglerService,
    options: StranglerView,
    req: Request,
    context: Vec<(String, String)>,
    forwarding: Forwarding,
)
    requires
        options == strangler@ && call_ensures(
            Strangler::forward_to_strangled,
            (&strangler, req, context),
            forwarding,
        ) || options == service@ && call_ensures(
            InnerStranglerService::forward_call_to_strangled,
            (&service, req, context),
            forwarding,
        ),
        forwarding is Http,
    ensures
        forwarding->Http_0.uri.scheme is Some,
        options.http_scheme == HttpScheme::HTTP ==> forwarding->Http_0.uri.scheme->0@ == "http"@,
        options.http_scheme == HttpScheme::HTTPS ==> forwarding->Http_0.uri.scheme->0@ == "https"@,
        forwarding->Http_0.uri.authority is Some,
        forwarding->Http_0.uri.authority->0@ == options.authority,
        forwarding->Http_0.uri.path_and_query is Some,
        req.original_uri is None && req.uri.path_and_query is Some
            ==> forwarding->Http_0.uri.path_and_query->0@ == req.uri.path_and_query->0@,
        req.original_uri is Some && req.original_uri->0.path_and_query is Some
            ==> forwarding->Http_0.uri.path_and_query->0@
            == req.original_uri->0.path_and_query->0@,
        forwarding->Http_0.method@ == req.method@,
        forwarding->Http_0.original_uri == req.original_uri,
        forwarding->Http_0.upgradable == req.upgradable,
{
}

/// The field at `i` is the last one with that name.
pub open spec fn is_last_field(fields: Seq<(String, String)>, name: Seq<char>, i: int) -> bool {
    0 <= i < fields.len() && small(fields[i].0@) == name && forall|j: int|
        i < j < fields.len() ==> small((#[trigger] fields[j]).0@) != name
}

/// No field has that name.
pub open spec fn has_no_field(fields: Seq<(String, String)>, name: Seq<char>) -> bool {
    forall|j: int| 0 <= j < fields.len() ==> small((#[trigger] fields[j]).0@) != name
}

/// Every name is that of a last field, or of none.
pub proof fn law_last_field_or_none(fields: Seq<(String, String)>, name: Seq<char>)
    ensures
        has_no_field(fields, name) || exists|i: int| is_last_field(fields, name, i),
        forall|i: int|
            is_last_field(fields, name, i) ==> 0 <= i < fields.len() && small(fields[i].0@) == name
                && !has_no_field(fields, name),
    decreases fields.len(),
{
    if fields.len() > 0 {
        let shorter = fields.drop_last();
        law_last_field_or_none(shorter, name);
        if small(fields.last().0@) == name {
            assert(is_last_field(fields, name, fields.len() - 1));
        } else if has_no_field(shorter, name) {
            assert forall|j: int| 0 <= j < fields.len() implies small((#[trigger] fields[j]).0@)
                != name by {
                if j < shorter.len() {
                    assert(fields[j] == shorter[j]);
                }
            }
        } else {
            let i = choose|i: int| is_last_field(shorter, name, i);
            assert(fields[i] == shorter[i]);
            assert forall|j: int| i < j < fields.len() implies small((#[trigger] fields[j]).0@)
                != name by {
                if j < shorter.len() {
                    assert(fields[j] == shorter[j]);
                }
            }
            assert(is_last_field(fields, name, i));
        }
    }
}

/// What fields that are set one after the other make of the header with a name.
proof fn lemma_fields_set(
    headers: HeaderContents,
    fields: Seq<(String, String)>,
    name: Seq<char>,
)
    ensures
        has_no_field(fields, name) ==> (fields_set(headers, field_views(fields)).dom().contains(name)
            <==> headers.dom().contains(name)) && fields_set(headers, field_views(fields))[name]
            == headers[name],
        forall|i: int| #[trigger]
            is_last_field(fields, name, i) ==> fields_set(
                headers,
                field_views(fields),
            ).dom().contains(name) && fields_set(headers, field_views(fields))[name] == seq![
                (FieldValue { bytes: encode_utf8(fields[i].1@), sensitive: false }),
            ],
    decreases fields.len(),
{
    let views = field_views(fields);
    if fields.len() > 0 {
        let shorter = fields.drop_last();
        let last = fields.len() - 1;
        assert(field_views(shorter) =~= views.drop_last());
        assert(views.last() == (fields[last].0@, fields[last].1@));
        lemma_fields_set(headers, shorter, name);
        lemma_small_is_key(fields[last].0@);
        if has_no_field(fields, name) {
            assert forall|j: int| 0 <= j < shorter.len() implies small((#[trigger] shorter[j]).0@)
                != name by {
                assert(fields[j] == shorter[j]);
            }
            assert(small(fields[last].0@) != name);
        }
        assert forall|i: int| #[trigger] is_last_field(fields, name, i) implies fields_set(
            headers,
            views,
        ).dom().contains(name) && fields_set(headers, views)[name] == seq![
            (FieldValue { bytes: encode_utf8(fields[i].1@), sensitive: false }),
        ] by {
            if i < last {
                assert(small(fields[last].0@) != name);
                assert(shorter[i] == fields[i]);
                assert forall|j: int| i < j < shorter.len() implies small(
                    (#[trigger] shorter[j]).0@,
                ) != name by {
                    assert(fields[j] == shorter[j]);
                }
                assert(is_last_field(shorter, name, i));
            }
        }
    }
}

/// Under every name but `host`, a forwarded request has the last field of the tracing context with that
/// name, as its only value, or, if there is none, what the request had. This does not depend on the
/// options.
pub proof fn law_headers(
    strangler: Strangler,
    service: InnerStranglerService,
    options: StranglerView,
    req: Request,
    context: Vec<(String, String)>,
    forwarding: Forwarding,
    name: Seq<char>,
)
    requires
        options == strangler@ && call_ensures(
            Strangler::forward_to_strangled,
            (&strangler, req, context),
            forwarding,
        ) || options == service@ && call_ensures(
            InnerStranglerService::forward_call_to_strangled,
            (&service, req, context),
            forwarding,
        ),
        forwarding is Http,
        name != "host"@,
    ensures
        forall|i: int| #[trigger]
            is_last_field(context@, name, i) ==> header_contents(
                forwarding->Http_0.headers,
            ).dom().contains(name) && header_contents(forwarding->Http_0.headers)[name] == seq![
                (FieldValue { bytes: encode_utf8(context@[i].1@), sensitive: false }),
            ],
        has_no_field(context@, name) ==> (header_contents(
            forwarding->Http_0.headers,
        ).dom().contains(name) <==> header_contents(req.headers).dom().contains(name)),
        has_no_field(context@, name) ==> header_contents(forwarding->Http_0.headers)[name]
            == header_contents(req.headers)[name],
{
    lemma_names();
    lemma_fields_set(header_contents(req.headers), context@, name);
}

/// A field of the tracing context reaches the strangled application, whatever the options: the header with
/// its key for a name has its value, unless a later field has the same key.
pub proof fn law_tracing_context_is_propagated(
    strangler: Strangler,
    service: InnerStranglerService,
    options: StranglerView,
    req: Request,
    context: Vec<(String, String)>,
    forwarding: Forwarding,
    i: int,
)
    requires
        options == strangler@ && call_ensures(
            Strangler::forward_to_strangled,
            (&strangler, req, context),
            forwarding,
        ) || options == service@ && call_ensures(
            InnerStranglerService::forward_call_to_strangled,
            (&service, req, context),
            forwarding,
        ),
        forwarding is Http,
        0 <= i < context@.len(),
        forall|j: int|
            i < j < context@.len() ==> small((#[trigger] context@[j]).0@) != small(context@[i].0@),
        small(context@[i].0@) != "host"@,
    ensures
        header_contents(forwarding->Http_0.headers).dom().contains(small(context@[i].0@)),
        header_contents(forwarding->Http_0.headers)[small(context@[i].0@)] == seq![
            (FieldValue { bytes: encode_utf8(context@[i].1@), sensitive: false }),
        ],
{
    let name = small(context@[i].0@);
    assert(is_last_field(context@, name, i));
    law_headers(strangler, service, options, req, context, forwarding, name);
}

/// The host header, without rewriting, is treated as any other. With rewriting, its oldest value names the
/// strangled application wherever there is one, and the others stay.
pub proof fn law_host(
    strangler: Strangler,
    service: InnerStranglerService,
    options: StranglerView,
    req: Request,
    context: Vec<(String, String)>,
    forwarding: Forwarding,
)
    requires
        options == strangler@ && call_ensures(
            Strangler::forward_to_strangled,
            (&strangler, req, context),
            forwarding,
        ) || options == service@ && call_ensures(
            InnerStranglerService::forward_call_to_strangled,
            (&service, req, context),
            forwarding,
        ),
        forwarding is Http,
    ensures
        has_no_field(context@, "host"@) ==> (header_contents(
            forwarding->Http_0.headers,
        ).dom().contains("host"@) <==> header_contents(req.headers).dom().contains("host"@)),
        !has_no_field(context@, "host"@) ==> header_contents(
            forwarding->Http_0.headers,
        ).dom().contains("host"@),
        !options.rewrite_host && has_no_field(context@, "host"@) ==> header_contents(
            forwarding->Http_0.headers,
        )["host"@] == header_contents(req.headers)["host"@],
        forall|i: int|
            !options.rewrite_host && #[trigger] is_last_field(context@, "host"@, i) ==> header_contents(
                forwarding->Http_0.headers,
            )["host"@] == seq![
                (FieldValue { bytes: encode_utf8(context@[i].1@), sensitive: false }),
            ],
        options.rewrite_host && header_contents(forwarding->Http_0.headers).dom().contains("host"@)
            ==> header_contents(forwarding->Http_0.headers)["host"@].len() > 0 && header_contents(
            forwarding->Http_0.headers,
        )["host"@][0] == (FieldValue { bytes: encode_utf8(options.authority), sensitive: false }),
        options.rewrite_host && !has_no_field(context@, "host"@) ==> header_contents(
            forwarding->Http_0.headers,
        )["host"@].len() == 1,
        options.rewrite_host && has_no_field(context@, "host"@) && header_contents(
            req.headers,
        ).dom().contains("host"@) && header_contents(req.headers)["host"@].len() > 0 ==> {
            &&& header_contents(forwarding->Http_0.headers)["host"@].len() == header_contents(
                req.headers,
            )["host"@].len()
            &&& forall|j: int|
                1 <= j < header_contents(req.headers)["host"@].len() ==> #[trigger] header_contents(
                    forwarding->Http_0.headers,
                )["host"@][j] == header_contents(req.headers)["host"@][j]
        },
{
    lemma_names();
    law_last_field_or_none(context@, "host"@);
    lemma_fields_set(header_contents(req.headers), context@, "host"@);
}

/// Setting the fields of a tracing context sets the last field with each name, and leaves every other
/// header and the rest of the request alone.
pub proof fn law_inject(
    request: Request,
    fields: Vec<(String, String)>,
    injected: Request,
    name: Seq<char>,
)
    requires
        call_ensures(inject_opentelemetry_context_into_request, (request, fields), injected),
    ensures
        forall|i: int| #[trigger]
            is_last_field(fields@, name, i) ==> header_contents(injected.headers).dom().contains(name)
                && header_contents(injected.headers)[name] == seq![
                (FieldValue { bytes: encode_utf8(fields@[i].1@), sensitive: false }),
            ],
        has_no_field(fields@, name) ==> (header_contents(injected.headers).dom().contains(name)
            <==> header_contents(request.headers).dom().contains(name)),
        has_no_field(fields@, name) ==> header_contents(injected.headers)[name] == header_contents(
            request.headers,
        )[name],
        injected.method == request.method,
        injected.uri == request.uri,
        injected.original_uri == request.original_uri,
        injected.upgradable == request.upgradable,
{
    lemma_fields_set(header_contents(request.headers), fields@, name);
}

// Answers.

/// The client gets the status and the headers of the strangled application, in HTTP/1.1 and without
/// extensions.
pub proof fn law_answer(
    strangler: Strangler,
    service: InnerStranglerService,
    strangled: Response,
    response: Response,
)
    requires
        call_ensures(Strangler::answer, (&strangler, strangled), response) || call_ensures(
            InnerStranglerService::answer,
            (&service, strangled),
            response,
        ),
    ensures
        response.version == HttpVersion::Http11,
        response.status == strangled.status,
        response.headers == strangled.headers,
        !response.extended,
        call_requires(Strangler::answer, (&strangler, strangled)),
        call_requires(InnerStranglerService::answer, (&service, strangled)),
{
}

// What a request must bring.

/// A request for a websocket needs a key that can be signed, a connection that can be taken over and a
/// path.
pub proof fn law_check_upgrade(req: Request, r: bool)
    requires
        call_ensures(check_upgrade, (&req,), r),
    ensures
        r <==> header_contents(req.headers).dom().contains("sec-websocket-key"@) && header_contents(
            req.headers,
        )["sec-websocket-key"@][0].bytes.len() + 36 < 0x2000_0000_0000_0000 && req.upgradable
            && req.uri.path_and_query is Some,
{
    lemma_names();
}

/// Fields can be set if their keys are header names and their values header values, and the map has room
/// for them.
pub proof fn law_check_inject(
    headers: &http::HeaderMap<http::HeaderValue>,
    fields: &Vec<(String, String)>,
    r: bool,
)
    requires
        call_ensures(check_inject, (headers, fields), r),
    ensures
        r <==> {
            &&& forall|i: int|
                0 <= i < fields@.len() ==> {
                    &&& 1 <= (#[trigger] fields@[i]).0@.len() <= 65535
                    &&& forall|k: int|
                        0 <= k < fields@[i].0@.len() ==> {
                            let c = #[trigger] fields@[i].0@[k] as int;
                            33 <= c <= 39 || c == 42 || c == 43 || c == 45 || c == 46 || 48 <= c <= 57
                                || 65 <= c <= 90 || 94 <= c <= 122 || c == 124 || c == 126
                        }
                    &&& forall|k: int|
                        0 <= k < encode_utf8(fields@[i].1@).len() ==> {
                            let b = #[trigger] encode_utf8(fields@[i].1@)[k];
                            b == 9 || 32 <= b <= 126 || 128 <= b
                        }
                }
            &&& fields@.len() > 0 ==> header_contents(*headers).dom().finite() && header_contents(
                *headers,
            ).dom().len() + fields@.len() <= 6554
        },
{
    let views = field_views(fields@);
    assert forall|i: int| 0 <= i < fields@.len() implies (is_header_field(views[i]) <==> {
        &&& 1 <= (#[trigger] fields@[i]).0@.len() <= 65535
        &&& forall|k: int|
            0 <= k < fields@[i].0@.len() ==> {
                let c = #[trigger] fields@[i].0@[k] as int;
                33 <= c <= 39 || c == 42 || c == 43 || c == 45 || c == 46 || 48 <= c <= 57 || 65 <= c
                    <= 90 || 94 <= c <= 122 || c == 124 || c == 126
            }
        &&& forall|k: int|
            0 <= k < encode_utf8(fields@[i].1@).len() ==> {
                let b = #[trigger] encode_utf8(fields@[i].1@)[k];
                b == 9 || 32 <= b <= 126 || 128 <= b
            }
    }) by {
        assert(views[i] == (fields@[i].0@, fields@[i].1@));
        lemma_name_by_code(fields@[i].0@);
        lemma_value_by_code(encode_utf8(fields@[i].1@));
    }
    if are_header_fields(views) {
        assert forall|i: int| 0 <= i < fields@.len() implies is_header_field(#[trigger] views[i]) by {}
    }
}

/// Which texts are header names, by the codes of their characters.
proof fn lemma_name_by_code(name: Seq<char>)
    ensures
        is_header_name(name) <==> (1 <= name.len() <= 65535 && forall|k: int|
            0 <= k < name.len() ==> {
                let c = #[trigger] name[k] as int;
                33 <= c <= 39 || c == 42 || c == 43 || c == 45 || c == 46 || 48 <= c <= 57 || 65 <= c
                    <= 90 || 94 <= c <= 122 || c == 124 || c == 126
            }),
{
    assert forall|k: int| 0 <= k < name.len() implies (is_header_name_char(#[trigger] name[k]) <==> {
        let c = name[k] as int;
        33 <= c <= 39 || c == 42 || c == 43 || c == 45 || c == 46 || 48 <= c <= 57 || 65 <= c <= 90
            || 94 <= c <= 122 || c == 124 || c == 126
    }) by {}
}

/// Which bytes are header values.
proof fn lemma_value_by_code(value: Seq<u8>)
    ensures
        is_header_value(value) <==> forall|k: int|
            0 <= k < value.len() ==> {
                let b = #[trigger] value[k];
                b == 9 || 32 <= b <= 126 || 128 <= b
            },
{
    assert forall|k: int| 0 <= k < value.len() implies (is_header_value_byte(#[trigger] value[k])
        <==> {
        let b = value[k];
        b == 9 || 32 <= b <= 126 || 128 <= b
    }) by {}
}

/// A request that is taken for a websocket can be forwarded if it can be upgraded, and any other if there
/// is a path to ask for and the context can be set. Every such request is forwarded.
pub proof fn law_check_forward(
    strangler: Strangler,
    service: InnerStranglerService,
    req: Request,
    context: Vec<(String, String)>,
    r: bool,
    taken: bool,
    upgradable: bool,
    injectable: bool,
)
    requires
        call_ensures(check_forward, (&req, &context), r),
        call_ensures(is_websocket_upgrade, (&req,), taken),
        call_ensures(check_upgrade, (&req,), upgradable),
        call_ensures(check_inject, (&req.headers, &context), injectable),
    ensures
        taken ==> r == upgradable,
        !taken && req.original_uri is None ==> (r <==> req.uri.path_and_query is Some && injectable),
        !taken && req.original_uri is Some ==> (r <==> req.original_uri->0.path_and_query is Some
            && injectable),
        r ==> call_requires(Strangler::forward_to_strangled, (&strangler, req, context)),
        r ==> call_requires(
            InnerStranglerService::forward_call_to_strangled,
            (&service, req, context),
        ),
        taken && upgradable || !taken ==> call_requires(
            InnerStranglerService::handle_websocket_upgrade_request,
            (&service, req),
        ),
        injectable ==> call_requires(inject_opentelemetry_context_into_request, (req, context)),
{
}

// The relay.

/// What a direction of the relay does upon each event, and that it can.
pub proof fn law_relay_step<M>(
    state: RelayState,
    event: RelayEvent<M>,
    r: (RelayState, RelayAction<M>),
)
    requires
        call_ensures(relay_step::<M>, (state, event), r),
    ensures
        event is Message ==> r.0 == RelayState::Sending && r.1 == RelayAction::Send(
            event->Message_0,
        ),
        event is Sent ==> r.0 == RelayState::Waiting && r.1 == RelayAction::<M>::Wait,
        event is PeerEnded ==> r.0 == RelayState::Finished && r.1 == RelayAction::<M>::Finish,
        event is SourceEnded ==> r.0 == RelayState::Finished && r.1
            == RelayAction::<M>::SignalPeerAndFinish,
        event is SendFailed ==> r.0 == RelayState::Finished && r.1
            == RelayAction::<M>::SignalPeerAndFinish,
        state == RelayState::Waiting && (event is Message || event is PeerEnded
            || event is SourceEnded) ==> call_requires(relay_step::<M>, (state, event)),
        state == RelayState::Sending && (event is Sent || event is SendFailed) ==> call_requires(
            relay_step::<M>,
            (state, event),
        ),
{
}

/// A source brings a message wherever its item is one, and ends with its first error or its end.
pub proof fn law_source_event<M, E>(item: Option<Result<M, E>>, event: RelayEvent<M>)
    requires
        call_ensures(source_event::<M, E>, (item,), event),
    ensures
        item is Some && item->0 is Ok ==> event == RelayEvent::Message(item->0->Ok_0),
        item is Some && item->0 is Err ==> event == RelayEvent::<M>::SourceEnded,
        item is None ==> event == RelayEvent::<M>::SourceEnded,
        call_requires(source_event::<M, E>, (item,)),
{
}

} // verus!
