//! What this library takes from the `http` crate: its header map, the parsers
//! that validate methods, header names and values, status codes and URIs, and
//! the texts of its errors. Every item here is trusted: its contract restates
//! what the crate's source (version 0.2) shows, and is not proved.

use vstd::prelude::*;
use std::str::FromStr;
use vstd::utf8::encode_utf8;

verus! {

#[verifier::external_type_specification]
#[verifier::external_body]
#[verifier::reject_recursive_types(T)]
pub struct ExHeaderMap<T>(http::HeaderMap<T>);

#[verifier::external_type_specification]
#[verifier::external_body]
pub struct ExHeaderValue(http::HeaderValue);

#[verifier::external_type_specification]
#[verifier::external_body]
pub struct ExInvalidMethod(http::method::InvalidMethod);

#[verifier::external_type_specification]
#[verifier::external_body]
pub struct ExToStrError(http::header::ToStrError);

#[verifier::external_type_specification]
#[verifier::external_body]
pub struct ExInvalidStatusCode(http::status::InvalidStatusCode);

// ---------------------------------------------------------------------------
// Character classes, as the `http` crate's lookup tables define them.
// ---------------------------------------------------------------------------

/// A byte that `Method::from_bytes` accepts (its `METHOD_CHARS` table).
pub open spec fn is_method_char(c: char) -> bool {
    let n = c as int;
    ||| n == 33 || n == 42 || n == 43 || n == 45 || n == 46
    ||| 48 <= n <= 57
    ||| 65 <= n <= 90
    ||| n == 94 || n == 95 || n == 96
    ||| 97 <= n <= 122
    ||| n == 124 || n == 126
}

/// A string that `Method::from_str` accepts: a non-empty run of method characters.
pub open spec fn is_method_token(s: Seq<char>) -> bool {
    &&& s.len() > 0
    &&& forall|i: int| 0 <= i < s.len() ==> #[trigger] is_method_char(s[i])
}

/// A character that `HeaderName::from_lowercase` accepts (its `HEADER_CHARS_H2` table).
pub open spec fn is_lower_header_char(c: char) -> bool {
    let n = c as int;
    ||| 33 <= n <= 39
    ||| n == 42 || n == 43 || n == 45 || n == 46
    ||| 48 <= n <= 57
    ||| n == 94 || n == 95 || n == 96
    ||| 97 <= n <= 122
    ||| n == 124 || n == 126
}

/// A character that `HeaderName::from_str` accepts (its `HEADER_CHARS` table):
/// the lowercase set and the ASCII capitals, which it lowercases.
pub open spec fn is_header_char(c: char) -> bool {
    is_lower_header_char(c) || (65 <= (c as int) <= 90)
}

/// The length limit on header names (`MAX_HEADER_NAME_LEN`).
pub open spec fn header_name_len_ok(s: Seq<char>) -> bool {
    0 < s.len() <= 65535
}

/// A string that `HeaderName::from_str` accepts.
pub open spec fn valid_header_name(s: Seq<char>) -> bool {
    &&& header_name_len_ok(s)
    &&& forall|i: int| 0 <= i < s.len() ==> #[trigger] is_header_char(s[i])
}

/// A string that `HeaderName::from_lowercase` accepts.
pub open spec fn valid_lower_header_name(s: Seq<char>) -> bool {
    &&& header_name_len_ok(s)
    &&& forall|i: int| 0 <= i < s.len() ==> #[trigger] is_lower_header_char(s[i])
}

/// ASCII lowercase of one character, as `HeaderName::from_str` normalizes it.
pub open spec fn ascii_lower(c: char) -> char {
    if 65 <= (c as int) <= 90 {
        ((c as int) + 32) as char
    } else {
        c
    }
}

/// ASCII lowercase of a string.
pub open spec fn ascii_lower_seq(s: Seq<char>) -> Seq<char> {
    s.map_values(|c: char| ascii_lower(c))
}

/// A character whose UTF-8 bytes `HeaderValue::from_str` all accepts: tab,
/// or any code point from 32 up but DEL (bytes of characters beyond ASCII are
/// all 128 or more, which the crate accepts).
pub open spec fn is_header_value_char(c: char) -> bool {
    (c as int) == 9 || ((c as int) >= 32 && (c as int) != 127)
}

/// A string that `HeaderValue::from_str` accepts.
pub open spec fn valid_header_value(s: Seq<char>) -> bool {
    forall|i: int| 0 <= i < s.len() ==> #[trigger] is_header_value_char(s[i])
}

/// A byte that `HeaderValue::to_str` accepts (`is_visible_ascii`).
pub open spec fn is_visible_ascii(b: u8) -> bool {
    b == 9 || (32 <= b && b < 127)
}

/// Bytes that `HeaderValue::to_str` accepts.
pub open spec fn all_visible_ascii(bytes: Seq<u8>) -> bool {
    forall|i: int| 0 <= i < bytes.len() ==> #[trigger] is_visible_ascii(bytes[i])
}

/// The characters of ASCII bytes.
pub open spec fn ascii_chars(bytes: Seq<u8>) -> Seq<char> {
    bytes.map_values(|b: u8| b as char)
}

// ---------------------------------------------------------------------------
// The header map.
// ---------------------------------------------------------------------------

/// A header line as the map holds it: the normalized name and the value's bytes.
pub type HeaderEntry = (Seq<char>, Seq<u8>);

/// What a `HeaderMap` holds: its (name, value) pairs in the order `iter` yields them.
pub uninterp spec fn header_map_entries(map: http::HeaderMap) -> Seq<(Seq<char>, Seq<u8>)>;

/// Whether some pair of `entries` has the name `name`.
pub open spec fn has_name(entries: Seq<HeaderEntry>, name: Seq<char>) -> bool {
    exists|i: int| 0 <= i < entries.len() && entries[i].0 == name
}

/// The first position of a pair named `name` (the length when there is none).
pub open spec fn first_index(entries: Seq<HeaderEntry>, name: Seq<char>) -> int
    decreases entries.len(),
{
    if entries.len() == 0 || entries[0].0 == name {
        0
    } else {
        1 + first_index(entries.drop_first(), name)
    }
}

/// Whether a pair has a name other than `name`.
pub open spec fn name_differs(name: Seq<char>) -> spec_fn(HeaderEntry) -> bool {
    |e: HeaderEntry| e.0 != name
}

/// What `HeaderMap::insert` does to the pairs: a new name goes last; an old
/// name keeps the place of its first value, takes the new value, and loses
/// every other value.
pub open spec fn entries_insert(entries: Seq<HeaderEntry>, name: Seq<char>, value: Seq<u8>) -> Seq<
    HeaderEntry,
> {
    if has_name(entries, name) {
        let i = first_index(entries, name);
        entries.take(i) + seq![(name, value)] + entries.skip(i + 1).filter(name_differs(name))
    } else {
        entries.push((name, value))
    }
}

/// The number of pairs below which `HeaderMap::insert` never reaches its
/// capacity limit (`MAX_SIZE`), whatever the hashes of the names.
pub open spec fn header_map_room(entries: Seq<HeaderEntry>) -> bool {
    entries.len() < 6553
}

/// Why a header line was refused.
#[derive(Debug, Clone, Copy, PartialEq, Eq)]
pub enum HeaderError {
    InvalidName,
    InvalidValue,
}

/// `HeaderMap::new`: an empty map.
#[verifier::external_body]
pub(crate) fn header_map_new() -> (map: http::HeaderMap)
    ensures
        header_map_entries(map) == Seq::<HeaderEntry>::empty(),
{
    http::HeaderMap::new()
}

/// `HeaderMap::insert` with a name from `HeaderName::from_str` and a value from
/// `HeaderValue::from_str`: the name is refused unless it is a valid header name,
/// the value unless it is a valid header value, and then the map is unchanged;
/// otherwise the pair (lowercased name, UTF-8 bytes of the value) is inserted.
#[verifier::external_body]
pub(crate) fn header_map_try_insert(map: &mut http::HeaderMap, name: &str, value: &str)
    -> (r: Result<(), HeaderError>)
    requires
        header_map_room(header_map_entries(*old(map))),
    ensures
        r is Ok <==> (valid_header_name(name@) && valid_header_value(value@)),
        (r is Err && r->Err_0 is InvalidName) <==> !valid_header_name(name@),
        r is Ok ==> header_map_entries(*final(map))
            == entries_insert(header_map_entries(*old(map)), ascii_lower_seq(name@), encode_utf8(value@)),
        r is Err ==> header_map_entries(*final(map)) == header_map_entries(*old(map)),
{
    let name = http::header::HeaderName::from_str(name).map_err(|_| HeaderError::InvalidName)?;
    let value = http::HeaderValue::from_str(value).map_err(|_| HeaderError::InvalidValue)?;
    map.insert(name, value);
    Ok(())
}

/// `HeaderMap::insert` with a name from `HeaderName::from_lowercase` and a value
/// parsed by `HeaderValue::from_str`: the name is refused unless it is a valid
/// lowercase header name, the value unless it is a valid header value, and then
/// the map is unchanged; otherwise the pair (name, UTF-8 bytes of the value) is
/// inserted.
#[verifier::external_body]
pub(crate) fn header_map_try_insert_lowercase(
    map: &mut http::HeaderMap,
    name: &str,
    value: &str,
) -> (r: Result<(), HeaderError>)
    requires
        header_map_room(header_map_entries(*old(map))),
    ensures
        r is Ok <==> (valid_lower_header_name(name@) && valid_header_value(value@)),
        (r is Err && r->Err_0 is InvalidName) <==> !valid_lower_header_name(name@),
        r is Ok ==> header_map_entries(*final(map))
            == entries_insert(header_map_entries(*old(map)), name@, encode_utf8(value@)),
        r is Err ==> header_map_entries(*final(map)) == header_map_entries(*old(map)),
{
    let name = http::header::HeaderName::from_lowercase(name.as_bytes()).map_err(
        |_| HeaderError::InvalidName,
    )?;
    let value = value.parse::<http::HeaderValue>().map_err(|_| HeaderError::InvalidValue)?;
    map.insert(name, value);
    Ok(())
}

/// `HeaderMap::iter`, each pair handed out as the name's text and the result of
/// `HeaderValue::to_str` on the value: the value's text when every byte is
/// visible ASCII or tab, an error otherwise.
#[verifier::external_body]
pub(crate) fn header_map_text_entries(map: &http::HeaderMap) -> (r: Vec<
    (String, Result<String, http::header::ToStrError>),
>)
    ensures
        r@.len() == header_map_entries(*map).len(),
        forall|i: int|
            0 <= i < r@.len() ==> {
                let e = header_map_entries(*map)[i];
                &&& (#[trigger] r@[i]).0@ == e.0
                &&& (r@[i].1 is Ok <==> all_visible_ascii(e.1))
                &&& (r@[i].1 matches Ok(s) ==> s@ == ascii_chars(e.1))
            },
{
    map.iter().map(|(k, v)| (k.to_string(), v.to_str().map(|s| s.to_string()))).collect()
}

// ---------------------------------------------------------------------------
// Methods, status codes and URIs.
// ---------------------------------------------------------------------------

/// `Method::from_str`, the method handed back as `Method::as_str`: accepted
/// exactly when the text is a method token, and then its text is unchanged.
#[verifier::external_body]
pub(crate) fn parse_method(s: &str) -> (r: Result<String, http::method::InvalidMethod>)
    ensures
        r is Ok <==> is_method_token(s@),
        r matches Ok(m) ==> m@ == s@,
{
    http::Method::from_str(s).map(|m| m.as_str().to_string())
}

/// `StatusCode::from_u16`, the code handed back by `as_u16`: accepted exactly
/// from 100 to 999, and then unchanged.
#[verifier::external_body]
pub(crate) fn parse_status_code(code: u16) -> (r: Result<u16, http::status::InvalidStatusCode>)
    ensures
        r is Ok <==> 100 <= code <= 999,
        r matches Ok(c) ==> c == code,
{
    http::StatusCode::from_u16(code).map(|s| s.as_u16())
}

/// What parsing a text as a `Uri` gives: the `Display` form of the parsed URI,
/// or the `Display` text of the parse error.
pub uninterp spec fn uri_parse(s: Seq<char>) -> Result<Seq<char>, Seq<char>>;

/// `Uri::try_from` on a text (what `request::Builder::uri` calls), the URI
/// handed back by `to_string` and the error by its `Display` text. The display
/// form (ASCII; the scheme lowercased, an empty path after an authority shown
/// as `/`, a fragment dropped) parses back to itself, unless it has grown past
/// the parser's length limit of 65534 bytes (`MAX_LEN`).
#[verifier::external_body]
pub(crate) fn parse_uri(s: &str) -> (r: Result<String, String>)
    ensures
        match (r, uri_parse(s@)) {
            (Ok(u), Ok(v)) => u@ == v,
            (Err(m), Err(v)) => m@ == v,
            _ => false,
        },
        r matches Ok(u) ==> (u@.len() <= 65534 ==> uri_parse(u@) == Ok::<Seq<char>, Seq<char>>(u@)),
{
    http::Uri::try_from(s).map(|u| u.to_string()).map_err(|e| e.to_string())
}

// ---------------------------------------------------------------------------
// Error texts.
// ---------------------------------------------------------------------------

/// `Display` of `InvalidMethod`: a fixed text.
#[verifier::external_body]
pub(crate) fn invalid_method_text(e: &http::method::InvalidMethod) -> (s: String)
    ensures
        s@ == "invalid HTTP method"@,
{
    e.to_string()
}

/// `Display` of `ToStrError`: a fixed text.
#[verifier::external_body]
pub(crate) fn to_str_error_text(e: &http::header::ToStrError) -> (s: String)
    ensures
        s@ == "failed to convert header to a str"@,
{
    e.to_string()
}

/// `Display` of `InvalidStatusCode`: a fixed text.
#[verifier::external_body]
pub(crate) fn invalid_status_code_text(e: &http::status::InvalidStatusCode) -> (s: String)
    ensures
        s@ == "invalid status code"@,
{
    e.to_string()
}

} // verus!
