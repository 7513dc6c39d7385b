//! Websocket upgrades: which requests ask for one, and how they are answered.
use crate::headers::{
    check_header_name, first_bytes, first_value, header_append, header_contents, header_copy,
    header_get, header_key, header_map_new, header_remove, is_header_name, is_header_value,
    is_header_value_byte, plain, FieldValue, HeaderContents,
};
use crate::inner::{InnerStranglerService, StranglerView};
use crate::message::{HttpVersion, Request, RequestView, Response, ResponseView};
use crate::uri::{strangled_uri, Uri, UriView};
use crate::WebSocketScheme;
use sha1::Digest;
use vstd::prelude::*;
use vstd::slice::slice_to_vec;
use vstd::utf8::*;

verus! {

/// `b` in lower case, where it is an ASCII letter.
pub open spec fn lower_byte(b: u8) -> u8 {
    if 65 <= b <= 90 {
        (b + 32) as u8
    } else {
        b
    }
}

/// `bytes` with every ASCII letter in lower case.
pub open spec fn lower_bytes(bytes: Seq<u8>) -> Seq<u8> {
    bytes.map_values(|b: u8| lower_byte(b))
}

/// Whether `needle` stands in `bytes` at `at`.
pub open spec fn stands_at(bytes: Seq<u8>, needle: Seq<u8>, at: int) -> bool {
    0 <= at && at + needle.len() <= bytes.len() && bytes.subrange(at, at + needle.len()) == needle
}

/// Whether `needle` stands anywhere in `bytes`.
pub open spec fn stands_in(bytes: Seq<u8>, needle: Seq<u8>) -> bool {
    exists|at: int| stands_at(bytes, needle, at)
}

/// Whether `key` is a header name and the oldest value under it is `value`, with the case of ASCII
/// letters ignored.
pub open spec fn header_is(headers: HeaderContents, key: Seq<char>, value: Seq<char>) -> bool {
    is_header_name(key) && match first_bytes(headers, key) {
        Some(bytes) => lower_bytes(bytes) == lower_bytes(encode_utf8(value)),
        None => false,
    }
}

/// Whether `key` is a header name and the oldest value under it is UTF-8 and holds `value` once put in
/// lower case.
pub open spec fn header_holds(headers: HeaderContents, key: Seq<char>, value: Seq<char>) -> bool {
    is_header_name(key) && match first_bytes(headers, key) {
        Some(bytes) => valid_utf8(bytes) && stands_in(lower_bytes(bytes), encode_utf8(value)),
        None => false,
    }
}

/// `bytes` as text, from `std::str::from_utf8`, if it is UTF-8.
#[verifier::external_body]
fn utf8_text(bytes: &[u8]) -> (text: Option<&str>)
    ensures
        text is Some <==> valid_utf8(bytes@),
        text matches Some(s) ==> encode_utf8(s@) == bytes@,
{
    std::str::from_utf8(bytes).ok()
}

/// `b` in lower case, where it is an ASCII letter.
fn to_lower(b: u8) -> (r: u8)
    ensures
        r == lower_byte(b),
{
    if 65 <= b && b <= 90 {
        b + 32
    } else {
        b
    }
}

/// Whether `a` and `b` differ in the case of ASCII letters only.
fn eq_ignore_ascii_case(a: &[u8], b: &[u8]) -> (r: bool)
    ensures
        r == (lower_bytes(a@) == lower_bytes(b@)),
{
    if a.len() != b.len() {
        assert(lower_bytes(a@).len() != lower_bytes(b@).len());
        return false;
    }
    let mut i: usize = 0;
    while i < a.len()
        invariant
            i <= a.len() == b.len(),
            forall|j: int| 0 <= j < i ==> lower_bytes(a@)[j] == lower_bytes(b@)[j],
        decreases a.len() - i,
    {
        if to_lower(a[i]) != to_lower(b[i]) {
            assert(lower_bytes(a@)[i as int] != lower_bytes(b@)[i as int]);
            return false;
        }
        i = i + 1;
    }
    assert(lower_bytes(a@) =~= lower_bytes(b@));
    true
}

/// Whether `bytes`, with every ASCII letter in lower case, holds `needle` at `at`.
fn lower_stands_at(bytes: &[u8], needle: &[u8], at: usize) -> (r: bool)
    requires
        at + needle@.len() <= bytes@.len(),
    ensures
        r == stands_at(lower_bytes(bytes@), needle@, at as int),
{
    let ghost there = lower_bytes(bytes@).subrange(at as int, at + needle@.len());
    let mut i: usize = 0;
    while i < needle.len()
        invariant
            i <= needle.len(),
            at + needle@.len() <= bytes.len(),
            there == lower_bytes(bytes@).subrange(at as int, at + needle@.len()),
            forall|j: int| 0 <= j < i ==> there[j] == needle@[j],
        decreases needle.len() - i,
    {
        if to_lower(bytes[at + i]) != needle[i] {
            assert(there[i as int] != needle@[i as int]);
            return false;
        }
        i = i + 1;
    }
    assert(there =~= needle@);
    true
}

/// Whether `bytes`, with every ASCII letter in lower case, holds `needle`.
fn lower_contains(bytes: &[u8], needle: &[u8]) -> (r: bool)
    ensures
        r == stands_in(lower_bytes(bytes@), needle@),
{
    if bytes.len() < needle.len() {
        return false;
    }
    let last: usize = bytes.len() - needle.len();
    let mut at: usize = 0;
    loop
        invariant
            needle@.len() <= bytes@.len(),
            last == bytes@.len() - needle@.len(),
            at <= last,
            forall|k: int| 0 <= k < at ==> !stands_at(lower_bytes(bytes@), needle@, k),
        decreases last - at,
    {
        if lower_stands_at(bytes, needle, at) {
            return true;
        }
        if at == last {
            return false;
        }
        at = at + 1;
    }
}

/// Whether the header `key` is there and its value is `value`, with the case of ASCII letters
/// ignored. Of several values only the oldest counts, and what is no header name is not there.
pub fn header_eq(headers: &http::HeaderMap<http::HeaderValue>, key: &str, value: &str) -> (r: bool)
    ensures
        r == header_is(header_contents(*headers), key@, value@),
{
    if !check_header_name(key) {
        return false;
    }
    match header_get(headers, key) {
        Some(header) => eq_ignore_ascii_case(header.as_slice(), value.as_bytes()),
        None => false,
    }
}

/// Whether the header `key` is there and its value, if it is UTF-8, holds `value` once its ASCII
/// letters are put in lower case. Of several values only the oldest counts, and what is no header name
/// is not there.
pub fn header_contains(headers: &http::HeaderMap<http::HeaderValue>, key: &str, value: &str) -> (r:
    bool)
    ensures
        r == header_holds(header_contents(*headers), key@, value@),
{
    if !check_header_name(key) {
        return false;
    }
    match header_get(headers, key) {
        Some(header) => match utf8_text(header.as_slice()) {
            Some(text) => lower_contains(text.as_bytes(), value.as_bytes()),
            None => false,
        },
        None => false,
    }
}

/// The SHA-1 digest of `data`.
pub uninterp spec fn sha1_digest(data: Seq<u8>) -> Seq<u8>;

/// The SHA-1 digest of `data`, from `sha1::Sha1`. It is 20 bytes long. The data must be shorter than
/// 2^64 bits, as the digest counts its bits in 64.
#[verifier::external_body]
fn sha1(data: &[u8]) -> (digest: Vec<u8>)
    requires
        data@.len() < 0x2000_0000_0000_0000,
    ensures
        digest@ == sha1_digest(data@),
        digest@.len() == 20,
{
    let mut sha1 = sha1::Sha1::default();
    sha1.update(data);
    sha1.finalize().to_vec()
}

/// The digit of base64 that stands for `value`, a number below 64.
pub open spec fn base64_digit(value: int) -> char {
    if value < 26 {
        ('A' as int + value) as char
    } else if value < 52 {
        ('a' as int + value - 26) as char
    } else if value < 62 {
        ('0' as int + value - 52) as char
    } else if value == 62 {
        '+'
    } else {
        '/'
    }
}

/// The byte of `data` at `i`, or zero behind its end.
pub open spec fn byte_or_zero(data: Seq<u8>, i: int) -> int {
    if i < data.len() {
        data[i] as int
    } else {
        0
    }
}

/// The six bits of `data` that the digit at `i` stands for: three bytes, read as one number, make four
/// digits.
pub open spec fn base64_value(data: Seq<u8>, i: int) -> int {
    let at = i / 4 * 3;
    let three = byte_or_zero(data, at) * 65536 + byte_or_zero(data, at + 1) * 256 + byte_or_zero(
        data,
        at + 2,
    );
    if i % 4 == 0 {
        three / 262144
    } else if i % 4 == 1 {
        three / 4096 % 64
    } else if i % 4 == 2 {
        three / 64 % 64
    } else {
        three % 64
    }
}

/// `data` in base64, with the standard alphabet and padding: four characters for every three bytes
/// begun, and `=` in the place of digits that no byte takes part in.
pub open spec fn base64_text(data: Seq<u8>) -> Seq<char> {
    Seq::new(
        (data.len() + 2) / 3 * 4,
        |i: int|
            if i / 4 * 3 + i % 4 <= data.len() {
                base64_digit(base64_value(data, i))
            } else {
                '='
            },
    )
}

/// Whether `c` is a digit of base64.
pub open spec fn is_base64_digit(c: char) -> bool {
    ||| 'A' <= c && c <= 'Z'
    ||| 'a' <= c && c <= 'z'
    ||| '0' <= c && c <= '9'
    ||| c == '+'
    ||| c == '/'
}

/// Whether `text` has the form of a signature: 27 digits of base64, and an `=`.
pub open spec fn is_signature(text: Seq<char>) -> bool {
    &&& text.len() == 28
    &&& forall|i: int| 0 <= i < 27 ==> is_base64_digit(#[trigger] text[i])
    &&& text[27] == '='
}

/// 20 bytes in base64 have the form of a signature.
proof fn lemma_signature(data: Seq<u8>)
    requires
        data.len() == 20,
    ensures
        is_signature(base64_text(data)),
{
    let text = base64_text(data);
    assert forall|i: int| 0 <= i < 27 implies is_base64_digit(#[trigger] text[i]) by {
        let value = base64_value(data, i);
        assert(0 <= value < 64);
        assert(text[i] == base64_digit(value));
    }
}

/// `data` in base64, from `base64::encode`. The text must fit in an allocation.
#[verifier::external_body]
fn base64_encode(data: &[u8]) -> (text: String)
    requires
        (data@.len() + 2) / 3 * 4 <= isize::MAX,
    ensures
        text@ == base64_text(data@),
{
    base64::encode(data)
}

/// What the key of a websocket handshake is signed with.
pub const WEBSOCKET_GUID: &'static str = "258EAFA5-E914-47DA-95CA-C5AB0DC85B11";

/// The signature of the key of a websocket handshake.
pub open spec fn accept_of(key: Seq<u8>) -> Seq<char> {
    base64_text(sha1_digest(key + encode_utf8(WEBSOCKET_GUID@)))
}

/// Signs the key of a websocket handshake. Key and GUID together must be shorter than 2^64 bits.
pub fn sign(key: &[u8]) -> (accept: String)
    requires
        key@.len() + 36 < 0x2000_0000_0000_0000,
    ensures
        accept@ == accept_of(key@),
        accept@ == base64_text(sha1_digest(key@ + encode_utf8(WEBSOCKET_GUID@))),
        is_signature(accept@),
{
    let guid = WEBSOCKET_GUID.as_bytes();
    proof {
        reveal_strlit("258EAFA5-E914-47DA-95CA-C5AB0DC85B11");
    }
    assert(WEBSOCKET_GUID.is_ascii());
    assert(guid@.len() == 36);
    let mut message: Vec<u8> = slice_to_vec(key);
    message.extend_from_slice(guid);
    assert(message@ =~= key@ + guid@);
    let digest = sha1(message.as_slice());
    proof {
        lemma_signature(digest@);
    }
    base64_encode(digest.as_slice())
}

/// Whether a request asks for a websocket.
pub open spec fn asks_for_websocket(req: RequestView) -> bool {
    &&& req.method == "GET"@
    &&& header_holds(req.headers, "connection"@, "upgrade"@)
    &&& header_is(req.headers, "upgrade"@, "websocket"@)
    &&& header_is(req.headers, "sec-websocket-version"@, "13"@)
}

/// Whether a request that asks for a websocket brings all that it takes: a key to sign, a connection
/// that can be taken over, and a path.
pub open spec fn can_upgrade(req: RequestView) -> bool {
    &&& first_bytes(req.headers, "sec-websocket-key"@) matches Some(key) && key.len() + 36
        < 0x2000_0000_0000_0000
    &&& req.upgradable
    &&& req.uri.path_and_query is Some
}

/// The response that switches a connection over to a websocket.
pub open spec fn switched(accept: Seq<char>, protocol: Option<FieldValue>) -> ResponseView {
    let headers = HeaderContents::empty().insert(
        header_key("connection"@),
        seq![plain(encode_utf8("upgrade"@))],
    ).insert(header_key("upgrade"@), seq![plain(encode_utf8("websocket"@))]).insert(
        header_key("sec-websocket-accept"@),
        seq![plain(encode_utf8(accept))],
    );
    ResponseView {
        version: HttpVersion::Http11,
        status: SWITCHING_PROTOCOLS,
        headers: match protocol {
            Some(name) => headers.insert(header_key("sec-websocket-protocol"@), seq![name]),
            None => headers,
        },
        extended: false,
    }
}

/// The status code of a response that switches protocols.
pub const SWITCHING_PROTOCOLS: u16 = 101;

/// What to do with a request that asks for a websocket: connect to `uri`, then answer with
/// `response` and relay messages between the two connections.
pub struct WebSocketUpgrade {
    /// The websocket of the strangled application.
    pub uri: Uri,
    /// The answer to the client.
    pub response: Response,
}

/// What a [`WebSocketUpgrade`] says.
pub struct WebSocketUpgradeView {
    /// The websocket of the strangled application.
    pub uri: UriView,
    /// The answer to the client.
    pub response: ResponseView,
}

impl View for WebSocketUpgrade {
    type V = WebSocketUpgradeView;

    open spec fn view(&self) -> WebSocketUpgradeView {
        WebSocketUpgradeView { uri: self.uri@, response: self.response@ }
    }
}

/// What a strangler does with a request that asks for a websocket.
pub open spec fn upgraded(strangler: StranglerView, req: RequestView) -> WebSocketUpgradeView {
    WebSocketUpgradeView {
        uri: strangled_uri(
            strangler.web_socket_scheme.text(),
            strangler.authority,
            req.uri.path_and_query->0,
        ),
        response: switched(
            accept_of(first_bytes(req.headers, "sec-websocket-key"@)->0),
            first_value(req.headers, "sec-websocket-protocol"@),
        ),
    }
}

/// The name under which a client sends its key is a header name, and none that the strangler writes.
proof fn lemma_request_headers()
    ensures
        is_header_name("sec-websocket-key"@),
        header_key("sec-websocket-key"@).len() == 17,
{
    reveal_strlit("sec-websocket-key");
}

/// The names and the values that the strangler writes into a response are fit for it, and the names
/// differ.
proof fn lemma_response_headers()
    ensures
        is_header_name("connection"@),
        is_header_name("upgrade"@),
        is_header_name("sec-websocket-accept"@),
        is_header_name("sec-websocket-protocol"@),
        is_header_value(encode_utf8("upgrade"@)),
        is_header_value(encode_utf8("websocket"@)),
        header_key("connection"@).len() == 10,
        header_key("upgrade"@).len() == 7,
        header_key("sec-websocket-accept"@).len() == 20,
        header_key("sec-websocket-protocol"@).len() == 22,
{
    reveal_strlit("connection");
    reveal_strlit("upgrade");
    reveal_strlit("websocket");
    reveal_strlit("sec-websocket-accept");
    reveal_strlit("sec-websocket-protocol");
    assert(is_ascii_chars("upgrade"@));
    is_ascii_chars_encode_utf8("upgrade"@);
    assert(is_ascii_chars("websocket"@));
    is_ascii_chars_encode_utf8("websocket"@);
}

/// A signature may stand in a header value.
proof fn lemma_signature_is_header_value(text: Seq<char>)
    requires
        is_signature(text),
    ensures
        is_header_value(encode_utf8(text)),
{
    assert(is_ascii_chars(text));
    is_ascii_chars_encode_utf8(text);
    assert forall|i: int| 0 <= i < encode_utf8(text).len() implies is_header_value_byte(
        #[trigger] encode_utf8(text)[i],
    ) by {
        assert(i == 27 || is_base64_digit(text[i]));
    }
}

/// The response that switches a connection over to a websocket, with the signature of the client's
/// key and, where the headers of the client name one, the protocol to speak over the websocket, as it
/// stands there.
pub fn switching_protocols(accept: &str, client: &http::HeaderMap<http::HeaderValue>) -> (response:
    Response)
    requires
        is_header_value(encode_utf8(accept@)),
    ensures
        response@ == switched(
            accept@,
            first_value(header_contents(*client), "sec-websocket-protocol"@),
        ),
{
    proof {
        lemma_response_headers();
    }
    let mut headers = header_map_new();
    header_append(&mut headers, "connection", "upgrade".as_bytes());
    header_append(&mut headers, "upgrade", "websocket".as_bytes());
    header_append(&mut headers, "sec-websocket-accept", accept.as_bytes());
    if header_get(client, "sec-websocket-protocol").is_some() {
        header_copy(&mut headers, "sec-websocket-protocol", client);
    }
    Response {
        version: HttpVersion::Http11,
        status: SWITCHING_PROTOCOLS,
        headers,
        extended: false,
    }
}

/// Whether a request asks for a websocket: it is a `GET`, its `connection` header speaks of an
/// upgrade, its `upgrade` header names the websocket protocol, and it asks for version 13 of it.
pub fn is_websocket_upgrade(req: &Request) -> (r: bool)
    ensures
        r == asks_for_websocket(req@),
{
    if req.method != "GET".to_owned() {
        return false;
    }
    header_contains(&req.headers, "connection", "upgrade") && header_eq(
        &req.headers,
        "upgrade",
        "websocket",
    ) && header_eq(&req.headers, "sec-websocket-version", "13")
}

/// Whether a request that asks for a websocket brings all that it takes.
pub fn check_upgrade(req: &Request) -> (r: bool)
    ensures
        r == can_upgrade(req@),
{
    proof {
        lemma_request_headers();
    }
    match header_get(&req.headers, "sec-websocket-key") {
        Some(key) => (key.len() as u64) < 0x2000_0000_0000_0000 - 36 && req.upgradable
            && req.uri.path_and_query.is_some(),
        None => false,
    }
}

impl InnerStranglerService {
    /// The scheme of the websockets of the strangled application.
    fn get_web_socket_scheme(&self) -> (scheme: &'static str)
        ensures
            scheme@ == self@.web_socket_scheme.text(),
    {
        match self.strangled_web_socket_scheme {
            WebSocketScheme::WS => "ws",
            WebSocketScheme::WSS => "wss",
        }
    }

    /// Takes on a request that asks for a websocket, and hands back any other as it is.
    pub fn handle_websocket_upgrade_request(&self, req: Request) -> (r: Result<
        WebSocketUpgrade,
        Request,
    >)
        requires
            asks_for_websocket(req@) ==> can_upgrade(req@),
        ensures
            !asks_for_websocket(req@) ==> r == Err::<WebSocketUpgrade, Request>(req),
            asks_for_websocket(req@) ==> (r matches Ok(upgrade) && upgrade@ == upgraded(
                self@,
                req@,
            )),
    {
        if !is_websocket_upgrade(&req) {
            return Err(req);
        }
        let mut headers = req.headers;
        proof {
            lemma_request_headers();
            lemma_response_headers();
        }
        let sec_websocket_key = header_remove(&mut headers, "sec-websocket-key").unwrap();
        let uri = Uri::build(
            self.get_web_socket_scheme(),
            &self.strangled_authority,
            &req.uri.path_and_query.unwrap(),
        );
        let accept = sign(sec_websocket_key.as_slice());
        proof {
            lemma_signature_is_header_value(accept@);
        }
        Ok(
            WebSocketUpgrade {
                uri,
                response: switching_protocols(accept.as_str(), &headers),
            },
        )
    }
}

} // verus!
