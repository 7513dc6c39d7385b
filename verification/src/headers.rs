//! The header map of the `http` crate, and what a header map holds.
//!
//! A header map is a multimap. Its contents are modelled as a mathematical map from a header name
//! in lower case to the values recorded under that name, in the order in which they were added.
//!
//! A map can hold what is no header name, as `http` does not look into a literal name of more than 64
//! bytes, and what is no header value, as `http` makes a value of any name. Nothing of the kind is put
//! into a map here, and nothing of the kind is looked up; where it is there, it is left alone, and a
//! value is copied as it is.
use vstd::prelude::*;
use vstd::utf8::*;

verus! {

/// A header value.
pub struct FieldValue {
    /// The bytes.
    pub bytes: Seq<u8>,
    /// Whether the value is marked as sensitive, and so to be kept out of logs and caches.
    pub sensitive: bool,
}

/// A value with these bytes that is not marked as sensitive.
pub open spec fn plain(bytes: Seq<u8>) -> FieldValue {
    FieldValue { bytes, sensitive: false }
}

/// The values of a header map: for each name, in lower case, the values under it, oldest first.
pub type HeaderContents = Map<Seq<char>, Seq<FieldValue>>;

/// `http::HeaderMap`, as an opaque type.
#[verifier::external_type_specification]
#[verifier::external_body]
#[verifier::reject_recursive_types(T)]
pub struct ExHeaderMap<T>(http::HeaderMap<T>);

/// `http::HeaderValue`, as an opaque type.
#[verifier::external_type_specification]
#[verifier::external_body]
pub struct ExHeaderValue(http::HeaderValue);

/// What a header map holds.
pub uninterp spec fn header_contents(headers: http::HeaderMap<http::HeaderValue>) -> HeaderContents;

/// The number of distinct names up to which an insertion into a header map is sure to succeed.
///
/// `http::HeaderMap` panics when an insertion would grow its table past 32768 slots. It grows a table of
/// that size at the earliest when a fifth of the slots is taken, and it does so before it looks whether
/// the name is there already.
pub const MAX_HEADER_NAMES: usize = 6554;

/// `c` in lower case, where it is an ASCII letter.
pub open spec fn lower_char(c: char) -> char {
    if 'A' <= c && c <= 'Z' {
        (c as u8 + 32) as u8 as char
    } else {
        c
    }
}

/// The form in which a header map records the name `name`.
pub open spec fn header_key(name: Seq<char>) -> Seq<char> {
    name.map_values(|c: char| lower_char(c))
}

/// Whether `c` may stand in a header name.
pub open spec fn is_header_name_char(c: char) -> bool {
    ||| 'a' <= c && c <= 'z'
    ||| 'A' <= c && c <= 'Z'
    ||| '0' <= c && c <= '9'
    ||| '!' <= c && c <= '\''
    ||| c == '*'
    ||| c == '+'
    ||| c == '-'
    ||| c == '.'
    ||| c == '^'
    ||| c == '_'
    ||| c == '`'
    ||| c == '|'
    ||| c == '~'
}

/// Whether `name` is a header name.
pub open spec fn is_header_name(name: Seq<char>) -> bool {
    &&& 0 < name.len() <= 0xffff
    &&& forall|i: int| 0 <= i < name.len() ==> is_header_name_char(#[trigger] name[i])
}

/// Whether `b` may stand in a header value.
pub open spec fn is_header_value_byte(b: u8) -> bool {
    b >= 32 && b != 127 || b == 9
}

/// Whether `value` is a header value.
pub open spec fn is_header_value(value: Seq<u8>) -> bool {
    forall|i: int| 0 <= i < value.len() ==> is_header_value_byte(#[trigger] value[i])
}

/// Whether `more` insertions into a map with these contents are sure to succeed, whatever the names.
pub open spec fn has_room(contents: HeaderContents, more: int) -> bool {
    contents.dom().finite() && contents.dom().len() + more <= MAX_HEADER_NAMES
}

/// Whether every name has a value, as it has in every header map.
pub open spec fn every_name_has_a_value(contents: HeaderContents) -> bool {
    forall|key: Seq<char>| contents.dom().contains(key) ==> (#[trigger] contents[key]).len() > 0
}

/// Whether there are `n` distinct names.
pub open spec fn names_counted(contents: HeaderContents, n: nat) -> bool {
    contents.dom().finite() && contents.dom().len() == n
}

/// The value that a lookup of `name` finds: the oldest one.
pub open spec fn first_value(contents: HeaderContents, name: Seq<char>) -> Option<FieldValue> {
    if contents.dom().contains(header_key(name)) {
        Some(contents[header_key(name)][0])
    } else {
        None
    }
}

/// The bytes of the value that a lookup of `name` finds.
pub open spec fn first_bytes(contents: HeaderContents, name: Seq<char>) -> Option<Seq<u8>> {
    match first_value(contents, name) {
        Some(value) => Some(value.bytes),
        None => None,
    }
}

/// The bytes in a vector that may be missing.
pub open spec fn bytes_view(bytes: Option<Vec<u8>>) -> Option<Seq<u8>> {
    match bytes {
        Some(bytes) => Some(bytes@),
        None => None,
    }
}

/// The contents with `value` added under `name`, behind the values that are there.
pub open spec fn appended(
    contents: HeaderContents,
    name: Seq<char>,
    value: FieldValue,
) -> HeaderContents {
    if contents.dom().contains(header_key(name)) {
        contents.insert(header_key(name), contents[header_key(name)].push(value))
    } else {
        contents.insert(header_key(name), seq![value])
    }
}

/// The contents with `value` in the place of the oldest value under `name`, before the others.
pub open spec fn overwritten(
    contents: HeaderContents,
    name: Seq<char>,
    value: FieldValue,
) -> HeaderContents {
    contents.insert(header_key(name), seq![value] + contents[header_key(name)].skip(1))
}

/// Whether `name` is a header name.
pub fn check_header_name(name: &str) -> (r: bool)
    ensures
        r == is_header_name(name@),
{
    if !name.is_ascii() {
        proof {
            let i = choose|i: int| 0 <= i < name@.len() && !('\0' <= #[trigger] name@[i] <= '\u{7f}');
            assert(!is_header_name_char(name@[i]));
        }
        return false;
    }
    let bytes = name.as_bytes();
    if bytes.len() == 0 || bytes.len() > 0xffff {
        return false;
    }
    let mut i: usize = 0;
    while i < bytes.len()
        invariant
            i <= bytes.len() == name@.len() <= 0xffff,
            is_ascii_chars(name@),
            bytes@ == encode_utf8(name@),
            forall|j: int| 0 <= j < i ==> is_header_name_char(#[trigger] name@[j]),
        decreases bytes.len() - i,
    {
        let b: u8 = bytes[i];
        proof {
            is_ascii_chars_encode_utf8(name@);
            assert(name@[i as int] as u8 == b);
        }
        if !(97 <= b && b <= 122 || 65 <= b && b <= 90 || 48 <= b && b <= 57 || 33 <= b && b <= 39
            || b == 42 || b == 43 || b == 45 || b == 46 || 94 <= b && b <= 96 || b == 124 || b
            == 126) {
            assert(!is_header_name_char(name@[i as int]));
            return false;
        }
        i = i + 1;
    }
    true
}

/// Whether `value` is a header value.
pub fn check_header_value(value: &[u8]) -> (r: bool)
    ensures
        r == is_header_value(value@),
{
    let mut i: usize = 0;
    while i < value.len()
        invariant
            i <= value.len(),
            forall|j: int| 0 <= j < i ==> is_header_value_byte(#[trigger] value@[j]),
        decreases value.len() - i,
    {
        let b: u8 = value[i];
        if !(b >= 32 && b != 127 || b == 9) {
            assert(!is_header_value_byte(value@[i as int]));
            return false;
        }
        i = i + 1;
    }
    true
}

/// An empty header map, from `http::HeaderMap::new`.
#[verifier::external_body]
pub(crate) fn header_map_new() -> (headers: http::HeaderMap<http::HeaderValue>)
    ensures
        header_contents(headers) == HeaderContents::empty(),
{
    http::HeaderMap::new()
}

/// How many distinct names the map holds, from `http::HeaderMap::keys_len`. There are finitely many.
#[verifier::external_body]
pub(crate) fn header_names(headers: &http::HeaderMap<http::HeaderValue>) -> (n: usize)
    ensures
        names_counted(header_contents(*headers), n as nat),
{
    headers.keys_len()
}

/// The bytes of the oldest value under `name`, from `http::HeaderMap::get`. The case of `name` makes
/// no difference. It must be a header name: a long text that is none can find a name that differs.
#[verifier::external_body]
pub(crate) fn header_get(headers: &http::HeaderMap<http::HeaderValue>, name: &str) -> (value:
    Option<Vec<u8>>)
    requires
        is_header_name(name@),
    ensures
        bytes_view(value) == first_bytes(header_contents(*headers), name@),
{
    headers.get(name).map(|v| v.as_bytes().to_vec())
}

/// Takes `name` out of the map with all of its values, and returns the bytes of the oldest of them,
/// from `http::HeaderMap::remove`. The name is looked up as for [`header_get`].
#[verifier::external_body]
pub(crate) fn header_remove(
    headers: &mut http::HeaderMap<http::HeaderValue>,
    name: &str,
) -> (value: Option<Vec<u8>>)
    requires
        is_header_name(name@),
    ensures
        bytes_view(value) == first_bytes(header_contents(*old(headers)), name@),
        header_contents(*final(headers)) == header_contents(*old(headers)).remove(
            header_key(name@),
        ),
{
    headers.remove(name).map(|v| v.as_bytes().to_vec())
}

/// Makes `value` the only value under `name`, from `http::HeaderMap::insert`, with the name read by
/// `http::header::HeaderName::from_bytes`, which puts it in lower case, and the value by
/// `http::HeaderValue::from_bytes`, which marks no value as sensitive.
#[verifier::external_body]
pub(crate) fn header_insert(
    headers: &mut http::HeaderMap<http::HeaderValue>,
    name: &str,
    value: &[u8],
)
    requires
        is_header_name(name@),
        is_header_value(value@),
        has_room(header_contents(*old(headers)), 1),
    ensures
        header_contents(*final(headers)) == header_contents(*old(headers)).insert(
            header_key(name@),
            seq![plain(value@)],
        ),
{
    headers.insert(
        http::header::HeaderName::from_bytes(name.as_bytes()).unwrap(),
        http::HeaderValue::from_bytes(value).unwrap(),
    );
}

/// Adds `value` behind the values under `name`, from `http::HeaderMap::append`, with the name and
/// the value read as for [`header_insert`].
#[verifier::external_body]
pub(crate) fn header_append(
    headers: &mut http::HeaderMap<http::HeaderValue>,
    name: &str,
    value: &[u8],
)
    requires
        is_header_name(name@),
        is_header_value(value@),
        has_room(header_contents(*old(headers)), 1),
    ensures
        header_contents(*final(headers)) == appended(
            header_contents(*old(headers)),
            name@,
            plain(value@),
        ),
{
    headers.append(
        http::header::HeaderName::from_bytes(name.as_bytes()).unwrap(),
        http::HeaderValue::from_bytes(value).unwrap(),
    );
}

/// Adds a clone of the oldest value under `name` in `from`, which must be there, behind the values
/// under `name` in `headers`, from `http::HeaderMap::append` and `http::HeaderMap::get`. The clone has
/// the bytes and the mark of the value, whatever these are.
#[verifier::external_body]
pub(crate) fn header_copy(
    headers: &mut http::HeaderMap<http::HeaderValue>,
    name: &str,
    from: &http::HeaderMap<http::HeaderValue>,
)
    requires
        is_header_name(name@),
        header_contents(*from).dom().contains(header_key(name@)),
        has_room(header_contents(*old(headers)), 1),
    ensures
        header_contents(*final(headers)) == appended(
            header_contents(*old(headers)),
            name@,
            first_value(header_contents(*from), name@)->0,
        ),
{
    headers.append(
        http::header::HeaderName::from_bytes(name.as_bytes()).unwrap(),
        from.get(name).unwrap().clone(),
    );
}

/// Overwrites the oldest value under `name`, which must be there, through
/// `http::HeaderMap::get_mut`, with a value read by `http::HeaderValue::from_bytes`, which marks no
/// value as sensitive. The name is looked up as for [`header_get`].
#[verifier::external_body]
pub(crate) fn header_overwrite(
    headers: &mut http::HeaderMap<http::HeaderValue>,
    name: &str,
    value: &[u8],
)
    requires
        is_header_name(name@),
        header_contents(*old(headers)).dom().contains(header_key(name@)),
        is_header_value(value@),
    ensures
        header_contents(*final(headers)) == overwritten(
            header_contents(*old(headers)),
            name@,
            plain(value@),
        ),
{
    *headers.get_mut(name).unwrap() = http::HeaderValue::from_bytes(value).unwrap();
}

} // verus!
