//! What the library takes on trust: the functions of other crates that it
//! calls, and the contract that each is believed to keep.
use http::header::{HeaderMap, HeaderValue};
use http::response::Builder;
use lamedh_http::StrMap;
use rocket::http::uri::Origin;
use rocket::http::RawStr;
use serde_json::Value;
use vstd::prelude::*;
use vstd::utf8::*;

use crate::headers;
use crate::headers::HeaderEntry;
use crate::text;
use crate::uri;

verus! {

/// The query parameters of a Lambda request: `lamedh_http::StrMap`.
#[verifier::external_type_specification]
#[verifier::external_body]
pub struct ExStrMap(StrMap);

/// The headers of a message: `http::HeaderMap`.
#[verifier::external_type_specification]
#[verifier::external_body]
#[verifier::reject_recursive_types(T)]
pub struct ExHeaderMap<T>(HeaderMap<T>);

/// The value of a header: `http::HeaderValue`.
#[verifier::external_type_specification]
#[verifier::external_body]
pub struct ExHeaderValue(HeaderValue);

/// A response that is being built: `http::response::Builder`.
#[verifier::external_type_specification]
#[verifier::external_body]
pub struct ExBuilder(Builder);

/// The headers of a Rocket response: `rocket::http::HeaderMap`.
#[verifier::external_type_specification]
#[verifier::external_body]
pub struct ExRocketHeaderMap<'h>(rocket::http::HeaderMap<'h>);

/// A JSON document: `serde_json::Value`.
#[verifier::external_type_specification]
#[verifier::external_body]
pub struct ExValue(Value);

/// The keys of a `StrMap`, each with its values in their order.
pub uninterp spec fn query_params(query: StrMap) -> Map<Seq<char>, Seq<Seq<char>>>;

/// Whether `keys` can be what walking over `params` yields: no key twice, and
/// none without a value. A key without a value ends the walk, so that the walk
/// yields all the keys where each has one.
pub open spec fn is_walk(params: Map<Seq<char>, Seq<Seq<char>>>, keys: Seq<Seq<char>>) -> bool {
    &&& keys.no_duplicates()
    &&& forall|i: int|
        0 <= i < keys.len() ==> params.contains_key(#[trigger] keys[i]) && params[keys[i]].len() > 0
    &&& (forall|key: Seq<char>| #[trigger]
        params.contains_key(key) ==> params[key].len() > 0) ==> (forall|key: Seq<char>| #[trigger]
        params.contains_key(key) ==> keys.contains(key))
}

/// `StrMap::iter`, of which only the keys are handed out. The order is that of
/// a hash map and is left open.
#[verifier::external_body]
pub(crate) fn query_keys(query: &StrMap) -> (keys: Vec<String>)
    ensures
        is_walk(query_params(*query), text::texts(keys@)),
{
    query.iter().map(|(key, _)| key.to_string()).collect()
}

/// `StrMap::get_all`: the values of a key, where the map holds the key.
#[verifier::external_body]
pub(crate) fn query_values(query: &StrMap, key: &str) -> (values: Option<Vec<String>>)
    ensures
        values is Some <==> query_params(*query).contains_key(key@),
        values matches Some(values) ==> text::texts(values@) == query_params(*query)[key@],
{
    query.get_all(key).map(|values| values.into_iter().map(|value| value.to_string()).collect())
}

/// `RawStr::percent_encode`: the UTF-8 bytes of the string, with each byte that
/// is not plain replaced by `%` and its two hexadecimal digits.
#[verifier::external_body]
pub(crate) fn percent_encode(s: &str) -> (encoded: String)
    ensures
        encoded@ == uri::encoded_bytes(encode_utf8(s@)),
{
    RawStr::new(s).percent_encode().to_string()
}

/// `Origin::parse`, of which only the success is handed out: it is an absolute
/// path, with or without a query, that parses.
#[verifier::external_body]
pub(crate) fn parses_as_origin(s: &str) -> (parses: bool)
    ensures
        parses == uri::is_origin(s@),
{
    Origin::parse(s).is_ok()
}

/// The headers of an `http::HeaderMap`, in the order in which it is walked.
pub uninterp spec fn header_entries(headers: HeaderMap<HeaderValue>) -> Seq<HeaderEntry>;

/// `http::HeaderMap::iter`: each header once for each of its values.
#[verifier::external_body]
pub(crate) fn header_list(headers: &HeaderMap<HeaderValue>) -> (list: Vec<(String, Vec<u8>)>)
    ensures
        headers::entries_of(list@) == header_entries(*headers),
{
    headers.iter().map(|(name, value)| (name.to_string(), value.as_bytes().to_vec())).collect()
}

/// `http::HeaderValue::to_str`: the value as text, where all of its bytes are
/// visible ASCII characters, spaces or tabs. What `HeaderValue::from_bytes`
/// refuses as a value has other bytes.
#[verifier::external_body]
pub(crate) fn header_text(value: &Vec<u8>) -> (text: Option<String>)
    ensures
        text is Some <==> headers::is_text(value@),
        text matches Some(text) ==> text@ == headers::value_as_text(value@),
{
    let value = HeaderValue::from_bytes(value.as_slice()).ok()?;
    value.to_str().ok().map(|text| text.to_string())
}

/// The head of a response as it is being built: the status and the headers in
/// the order in which they were added, or the message of the first error.
pub type Outcome = Result<(u16, Seq<HeaderEntry>), Seq<char>>;

/// A head that was built so far without an error.
pub open spec fn built(status: u16, added: Seq<HeaderEntry>) -> Outcome {
    Ok((status, added))
}

/// A head that could not be built.
pub open spec fn failed(message: Seq<char>) -> Outcome {
    Err(message)
}

/// What an `http::response::Builder` has come to.
pub uninterp spec fn builder_outcome(builder: Builder) -> Outcome;

/// The number of headers that an `http::HeaderMap` surely takes. Beyond, it may
/// be full, depending on how the names hash.
pub const SURE_HEADERS: usize = 6554;

/// `http::response::Builder::new`: status 200 and no header.
#[verifier::external_body]
pub(crate) fn new_builder() -> (builder: Builder)
    ensures
        builder_outcome(builder) == built(200, Seq::empty()),
{
    Builder::new()
}

/// `http::response::Builder::status`: sets a status of three digits; keeps an
/// earlier error.
#[verifier::external_body]
pub(crate) fn with_status(builder: Builder, status: u16) -> (next: Builder)
    ensures
        builder_outcome(next) == match builder_outcome(builder) {
            Err(message) => failed(message),
            Ok(head) => if 100 <= status < 1000 {
                built(status, head.1)
            } else {
                failed("invalid status code"@)
            },
        },
{
    builder.status(status)
}

/// `http::response::Builder::header`: adds a header whose name and value are
/// valid, under its name in lower case; keeps an earlier error. Whether a map
/// of `SURE_HEADERS` headers or more takes another one is left open.
#[verifier::external_body]
pub(crate) fn with_header(builder: Builder, name: &String, value: &String) -> (next: Builder)
    ensures
        match builder_outcome(builder) {
            Err(message) => builder_outcome(next) == failed(message),
            Ok(head) => match headers::header_name(name@) {
                None => builder_outcome(next) == failed("invalid HTTP header name"@),
                Some(lower) => if !headers::is_header_value(value@) {
                    builder_outcome(next) == failed("failed to parse header value"@)
                } else {
                    ||| builder_outcome(next) == built(
                        head.0,
                        head.1.push((lower, encode_utf8(value@))),
                    )
                    ||| head.1.len() >= SURE_HEADERS && builder_outcome(next) == failed(
                        "max size reached"@,
                    )
                },
            },
        },
{
    builder.header(name, value)
}

/// `http::response::Builder::body`: the head of the response, or the message of
/// the first error. The values of one header keep their order; the order of the
/// names is left open.
#[verifier::external_body]
pub(crate) fn finish(builder: Builder) -> (head: Result<(u16, HeaderMap<HeaderValue>), String>)
    ensures
        match builder_outcome(builder) {
            Err(message) => head matches Err(text) && text@ == message,
            Ok((status, added)) => head matches Ok(parts) && parts.0 == status
                && headers::same_headers(header_entries(parts.1), added),
        },
{
    match builder.body(()) {
        Ok(response) => {
            let (parts, ()) = response.into_parts();
            Ok((parts.status.as_u16(), parts.headers))
        },
        Err(error) => Err(error.to_string()),
    }
}

/// The headers of a `rocket::http::HeaderMap`, in the order in which it is
/// walked.
pub uninterp spec fn rocket_header_entries(headers: rocket::http::HeaderMap<'_>) -> Seq<
    (Seq<char>, Seq<char>),
>;

/// `rocket::http::HeaderMap::iter`: each header once for each of its values.
#[verifier::external_body]
pub(crate) fn rocket_header_list(headers: &rocket::http::HeaderMap<'_>) -> (list: Vec<
    (String, String),
>)
    ensures
        text::pair_texts(list@) == rocket_header_entries(*headers),
{
    headers.iter().map(|header| (header.name.to_string(), header.value.to_string())).collect()
}

/// `rocket::http::HeaderMap::get_one`: the first value of a header, whatever
/// the case of its name.
#[verifier::external_body]
pub(crate) fn rocket_header(headers: &rocket::http::HeaderMap<'_>, name: &str) -> (value: Option<
    String,
>)
    ensures
        text::optional_text(value) == headers::first_value(rocket_header_entries(*headers), name@),
{
    headers.get_one(name).map(|value| value.to_string())
}

/// The text of a JSON document, without spaces between its tokens.
pub uninterp spec fn json_document(value: Value) -> Seq<char>;

/// `serde_json::Value::to_string`.
#[verifier::external_body]
pub(crate) fn json_text(value: &Value) -> (text: String)
    ensures
        text@ == json_document(*value),
{
    value.to_string()
}

/// A string that is not all ASCII in lower case, as Unicode has it.
pub uninterp spec fn unicode_lowercase(s: Seq<char>) -> Seq<char>;

/// `str::to_lowercase`. Of a string of ASCII characters it changes the letters
/// `A` to `Z` alone.
#[verifier::external_body]
pub(crate) fn to_lowercase(s: &str) -> (lower: String)
    ensures
        is_ascii_chars(s@) ==> lower@ == text::ascii_lowercase(s@),
        !is_ascii_chars(s@) ==> lower@ == unicode_lowercase(s@),
{
    s.to_lowercase()
}

/// A string in lower case.
pub open spec fn lowercase(s: Seq<char>) -> Seq<char> {
    if is_ascii_chars(s) {
        text::ascii_lowercase(s)
    } else {
        unicode_lowercase(s)
    }
}

/// `String::from_utf8`: the text that the bytes encode, or the bytes themselves
/// where they are not UTF-8.
#[verifier::external_body]
pub(crate) fn from_utf8(bytes: Vec<u8>) -> (text: Result<String, Vec<u8>>)
    ensures
        match text {
            Ok(text) => valid_utf8(bytes@) && text@ == decode_utf8(bytes@),
            Err(same) => !valid_utf8(bytes@) && same@ == bytes@,
        },
{
    String::from_utf8(bytes).map_err(|error| error.into_bytes())
}

} // verus!
