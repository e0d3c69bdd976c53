//! The way of a response from Rocket to Lambda.
use http::header::{HeaderMap, HeaderValue};
use vstd::prelude::*;
use vstd::utf8::*;

use crate::body::{Body, BodyView};
use crate::config::{Config, ResponseType};
use crate::error::RocketLambError;
use crate::headers;
use crate::headers::HeaderEntry;
use crate::outside;
use crate::outside::{
    finish, from_utf8, new_builder, rocket_header, rocket_header_list, with_header, with_status,
    SURE_HEADERS,
};
use crate::text;

verus! {

/// A response as Lambda is handed it.
pub struct LambdaResponse {
    pub status: u16,
    pub headers: HeaderMap<HeaderValue>,
    pub body: Body,
}

/// How a body is encoded, or the message of the error.
pub open spec fn encoded_body(response_type: ResponseType, body: Option<Seq<u8>>) -> Result<
    BodyView,
    Seq<char>,
> {
    match body {
        None => Ok(BodyView::Empty),
        Some(bytes) => match response_type {
            ResponseType::Auto => if valid_utf8(bytes) {
                Ok(BodyView::Text(decode_utf8(bytes)))
            } else {
                Ok(BodyView::Binary(bytes))
            },
            ResponseType::Text => if valid_utf8(bytes) {
                Ok(BodyView::Text(decode_utf8(bytes)))
            } else {
                Err("failed to read response body as UTF-8"@)
            },
            ResponseType::Binary => Ok(BodyView::Binary(bytes)),
        },
    }
}

/// The bytes of an optional body.
pub open spec fn optional_bytes(body: Option<Vec<u8>>) -> Option<Seq<u8>> {
    match body {
        Some(bytes) => Some(bytes@),
        None => None,
    }
}

/// Encodes the body of a response.
pub fn encode_body(response_type: ResponseType, body: Option<Vec<u8>>) -> (result: Result<
    Body,
    RocketLambError,
>)
    ensures
        match encoded_body(response_type, optional_bytes(body)) {
            Ok(view) => result matches Ok(encoded) && encoded@ == view,
            Err(message) => result matches Err(error) && error.is_invalid_response(message),
        },
        body is None ==> result is Ok && result->Ok_0 is Empty,
        body matches Some(bytes) ==> match response_type {
            ResponseType::Auto => if valid_utf8(bytes@) {
                result matches Ok(Body::Text(_))
            } else {
                result matches Ok(Body::Binary(_))
            },
            ResponseType::Text => if valid_utf8(bytes@) {
                result matches Ok(Body::Text(_))
            } else {
                result is Err
            },
            ResponseType::Binary => result matches Ok(Body::Binary(_)),
        },
        body matches Some(bytes) ==> {
            &&& result matches Ok(Body::Text(text)) ==> encode_utf8(text@) == bytes@
            &&& result matches Ok(Body::Binary(same)) ==> same@ == bytes@
        },
        result matches Err(error) ==> error matches RocketLambError::InvalidResponse(message)
            && message@ == "failed to read response body as UTF-8"@,
{
    proof {
        if body is Some && valid_utf8(body->0@) {
            decode_utf8_encode_utf8(body->0@);
        }
    }
    match body {
        None => Ok(Body::Empty),
        Some(bytes) => match response_type {
            ResponseType::Auto => match from_utf8(bytes) {
                Ok(text) => Ok(Body::Text(text)),
                Err(bytes) => Ok(Body::Binary(bytes)),
            },
            ResponseType::Text => match from_utf8(bytes) {
                Ok(text) => Ok(Body::Text(text)),
                Err(_) => Err(
                    RocketLambError::InvalidResponse(
                        "failed to read response body as UTF-8".to_owned(),
                    ),
                ),
            },
            ResponseType::Binary => Ok(Body::Binary(bytes)),
        },
    }
}

/// Encoding a body keeps its bytes, whatever the response type; it fails only
/// where text is asked for and the body is not UTF-8.
pub proof fn law_encoding_keeps_the_bytes(response_type: ResponseType, bytes: Seq<u8>)
    ensures
        match encoded_body(response_type, Some(bytes)) {
            Ok(view) => view.bytes() == bytes,
            Err(_) => response_type == ResponseType::Text && !valid_utf8(bytes),
        },
{
    if valid_utf8(bytes) {
        decode_utf8_encode_utf8(bytes);
    }
}

/// The response type and whether the bytes are UTF-8 decide alone how a body is
/// encoded, whatever its length: automatically as text where it is UTF-8 and as
/// binary data where it is not, as text never as binary data, and as binary data
/// never as text.
pub proof fn law_variant_is_by_type_and_utf8(bytes: Seq<u8>)
    ensures
        encoded_body(ResponseType::Auto, Some(bytes)) is Ok,
        encoded_body(ResponseType::Auto, Some(bytes))->Ok_0 is Text <==> valid_utf8(bytes),
        encoded_body(ResponseType::Auto, Some(bytes))->Ok_0 is Binary <==> !valid_utf8(bytes),
        encoded_body(ResponseType::Text, Some(bytes)) is Ok <==> valid_utf8(bytes),
        valid_utf8(bytes) ==> encoded_body(ResponseType::Text, Some(bytes))->Ok_0 is Text,
        encoded_body(ResponseType::Binary, Some(bytes)) is Ok,
        encoded_body(ResponseType::Binary, Some(bytes))->Ok_0 is Binary,
        forall|response_type: ResponseType| #[trigger]
            encoded_body(response_type, None) == Ok::<BodyView, Seq<char>>(BodyView::Empty),
{
}

/// Every text is handed on as that text, unless binary data is asked for, and
/// then as the bytes that it is written in.
pub proof fn law_text_is_handed_on_as_text(text: Seq<char>)
    ensures
        encoded_body(ResponseType::Auto, Some(encode_utf8(text))) == Ok::<BodyView, Seq<char>>(
            BodyView::Text(text),
        ),
        encoded_body(ResponseType::Text, Some(encode_utf8(text))) == Ok::<BodyView, Seq<char>>(
            BodyView::Text(text),
        ),
        encoded_body(ResponseType::Binary, Some(encode_utf8(text))) == Ok::<BodyView, Seq<char>>(
            BodyView::Binary(encode_utf8(text)),
        ),
{
    encode_utf8_valid_utf8(text);
    encode_utf8_decode_utf8(text);
}

/// Why a header cannot be handed on, if it cannot.
pub open spec fn header_failure(entry: (Seq<char>, Seq<char>)) -> Option<Seq<char>> {
    if headers::header_name(entry.0) is None {
        Some("invalid HTTP header name"@)
    } else if !headers::is_header_value(entry.1) {
        Some("failed to parse header value"@)
    } else {
        None
    }
}

/// Why the status and the headers of a response cannot be handed on, if they
/// cannot: by the status, or else by the first header that is at fault.
pub open spec fn head_failure(status: u16, entries: Seq<(Seq<char>, Seq<char>)>) -> Option<
    Seq<char>,
>
    decreases entries.len(),
{
    if entries.len() == 0 {
        if 100 <= status < 1000 {
            None
        } else {
            Some("invalid status code"@)
        }
    } else {
        match head_failure(status, entries.drop_last()) {
            Some(message) => Some(message),
            None => header_failure(entries.last()),
        }
    }
}

/// Headers under their names in lower case, with the bytes of their values.
pub open spec fn handed_on(entries: Seq<(Seq<char>, Seq<char>)>) -> Seq<HeaderEntry> {
    entries.map_values(
        |entry: (Seq<char>, Seq<char>)|
            (headers::header_name(entry.0)->0, encode_utf8(entry.1)),
    )
}

/// A head is handed on where its status has three digits and each header has a
/// valid name and a valid value. Otherwise the status is named first, and then
/// the first header that is at fault, its name before its value.
///
/// `n` headers without fault come first.
pub proof fn law_first_fault_is_named(status: u16, entries: Seq<(Seq<char>, Seq<char>)>, n: int)
    requires
        0 <= n <= entries.len(),
        forall|i: int|
            0 <= i < n ==> headers::header_name((#[trigger] entries[i]).0) is Some
                && headers::is_header_value(entries[i].1),
        n < entries.len() ==> headers::header_name(entries[n].0) is None
            || !headers::is_header_value(entries[n].1),
    ensures
        status < 100 || status > 999 ==> head_failure(status, entries) == Some(
            "invalid status code"@,
        ),
        100 <= status <= 999 && n == entries.len() ==> head_failure(status, entries) is None,
        100 <= status <= 999 && n < entries.len() && headers::header_name(entries[n].0) is None
            ==> head_failure(status, entries) == Some("invalid HTTP header name"@),
        100 <= status <= 999 && n < entries.len() && headers::header_name(entries[n].0) is Some
            ==> head_failure(status, entries) == Some("failed to parse header value"@),
    decreases entries.len(),
{
    if entries.len() > 0 {
        let front = entries.drop_last();
        assert(forall|i: int| 0 <= i < front.len() ==> #[trigger] front[i] == entries[i]);
        if n < front.len() {
            law_first_fault_is_named(status, front, n);
        } else {
            law_first_fault_is_named(status, front, front.len() as int);
        }
    }
}

/// Where a head can be handed on, so can its status and each of its headers.
proof fn lemma_no_failure(status: u16, entries: Seq<(Seq<char>, Seq<char>)>)
    requires
        head_failure(status, entries) is None,
    ensures
        100 <= status <= 999,
        forall|i: int|
            0 <= i < entries.len() ==> headers::header_name((#[trigger] entries[i]).0) is Some
                && headers::is_header_value(entries[i].1),
    decreases entries.len(),
{
    if entries.len() > 0 {
        let front = entries.drop_last();
        lemma_no_failure(status, front);
        assert forall|i: int| 0 <= i < entries.len() implies headers::header_name(
            (#[trigger] entries[i]).0,
        ) is Some && headers::is_header_value(entries[i].1) by {
            if i < front.len() {
                assert(front[i] == entries[i]);
            }
        }
    }
}

/// The headers that are handed on are those of the response one for one, in
/// their order, each under its name in lower case and with the bytes that its
/// value is written in.
pub proof fn law_headers_are_handed_on_one_for_one(entries: Seq<(Seq<char>, Seq<char>)>, i: int)
    requires
        0 <= i < entries.len(),
        headers::header_name(entries[i].0) is Some,
    ensures
        handed_on(entries).len() == entries.len(),
        handed_on(entries)[i].0 == text::ascii_lowercase(entries[i].0),
        handed_on(entries)[i].1 == encode_utf8(entries[i].1),
{
}

/// Builds the status and the headers of a response, or gives the message of the
/// error. More than `SURE_HEADERS` headers may be too many.
pub fn build_head(status: u16, list: &Vec<(String, String)>) -> (result: Result<
    (u16, HeaderMap<HeaderValue>),
    String,
>)
    ensures
        match result {
            Ok(head) => {
                &&& head_failure(status, text::pair_texts(list@)) is None
                &&& head.0 == status
                &&& headers::same_headers(
                    outside::header_entries(head.1),
                    handed_on(text::pair_texts(list@)),
                )
            },
            Err(message) => {
                ||| head_failure(status, text::pair_texts(list@)) == Some(message@)
                ||| list@.len() > SURE_HEADERS && message@ == "max size reached"@
            },
        },
        list@.len() <= 6554 && head_failure(status, text::pair_texts(list@)) is None
            ==> result is Ok,
        status < 100 || status > 999 ==> result is Err,
        result is Ok ==> forall|i: int|
            0 <= i < list@.len() ==> headers::header_name((#[trigger] list@[i]).0@) is Some
                && headers::is_header_value(list@[i].1@),
        result matches Ok(head) ==> forall|i: int|
            0 <= i < list@.len() ==> outside::header_entries(head.1).contains(
                (text::ascii_lowercase((#[trigger] list@[i]).0@), encode_utf8(list@[i].1@)),
            ),
{
    let ghost entries = text::pair_texts(list@);
    let mut builder = with_status(new_builder(), status);
    let mut i: usize = 0;
    proof {
        assert(entries.take(0) =~= Seq::empty());
        assert(handed_on(entries.take(0)) =~= Seq::empty());
    }
    while i < list.len()
        invariant
            i <= list@.len(),
            entries == text::pair_texts(list@),
            match outside::builder_outcome(builder) {
                Ok(head) => {
                    &&& head_failure(status, entries.take(i as int)) is None
                    &&& head.0 == status
                    &&& head.1 == handed_on(entries.take(i as int))
                },
                Err(message) => {
                    ||| head_failure(status, entries.take(i as int)) == Some(message)
                    ||| i > SURE_HEADERS && message == "max size reached"@
                },
            },
        decreases list@.len() - i,
    {
        proof {
            let done = entries.take(i as int);
            let next = entries.take(i + 1);
            assert(next.drop_last() =~= done);
            assert(next.last() == entries[i as int]);
            assert(handed_on(next) =~= handed_on(done).push(
                (
                    headers::header_name(entries[i as int].0)->0,
                    encode_utf8(entries[i as int].1),
                ),
            ));
        }
        builder = with_header(builder, &list[i].0, &list[i].1);
        i = i + 1;
    }
    proof {
        assert(entries.take(list@.len() as int) =~= entries);
        if head_failure(status, entries) is None {
            lemma_no_failure(status, entries);
        }
        assert forall|i: int| 0 <= i < list@.len() implies (#[trigger] entries[i]).0 == list@[i].0@
            && entries[i].1 == list@[i].1@ by {}
    }
    let result = finish(builder);
    proof {
        if result is Ok {
            let head = result->Ok_0;
            assert forall|i: int| 0 <= i < list@.len() implies headers::header_name(
                (#[trigger] list@[i]).0@,
            ) is Some && headers::is_header_value(list@[i].1@) by {
                assert(headers::header_name(entries[i].0) is Some);
            }
            assert forall|i: int|
                0 <= i < list@.len() implies outside::header_entries(head.1).contains(
                (text::ascii_lowercase((#[trigger] list@[i]).0@), encode_utf8(list@[i].1@)),
            ) by {
                law_headers_are_handed_on_one_for_one(entries, i);
                headers::law_same_headers_hold_the_same(
                    outside::header_entries(head.1),
                    handed_on(entries),
                    handed_on(entries)[i],
                );
                assert(handed_on(entries).contains(handed_on(entries)[i]));
            }
        }
    }
    result
}

/// The value of the `content-type` header, or the empty text where there is
/// none.
pub open spec fn content_type(entries: Seq<(Seq<char>, Seq<char>)>) -> Seq<char> {
    match headers::first_value(entries, "content-type"@) {
        Some(value) => value,
        None => Seq::empty(),
    }
}

/// The content type is the value of the first header that is called
/// `content-type` in whatever case, and the empty text where no header is.
///
/// `n` headers of other names come first.
pub proof fn law_first_content_type_counts(entries: Seq<(Seq<char>, Seq<char>)>, n: int)
    requires
        0 <= n <= entries.len(),
        forall|i: int|
            0 <= i < n ==> text::ascii_lowercase((#[trigger] entries[i]).0) != "content-type"@,
        n < entries.len() ==> text::ascii_lowercase(entries[n].0) == "content-type"@,
    ensures
        n < entries.len() ==> content_type(entries) == entries[n].1,
        n == entries.len() ==> content_type(entries) == Seq::<char>::empty(),
    decreases entries.len(),
{
    let name = "content-type"@;
    if entries.len() > 0 {
        let rest = entries.drop_first();
        lemma_same_as_lower_case(entries[0].0, name);
        if n > 0 {
            assert(forall|i: int| 0 <= i < rest.len() ==> #[trigger] rest[i] == entries[i + 1]);
            assert(text::ascii_lowercase(entries[0].0) != name);
            law_first_content_type_counts(rest, n - 1);
        }
    }
}

/// A string is `content-type` up to the case of its letters where it is so in
/// lower case.
proof fn lemma_same_as_lower_case(s: Seq<char>, name: Seq<char>)
    requires
        name == "content-type"@,
    ensures
        text::same_uncased(s, name) <==> text::ascii_lowercase(s) == name,
{
    reveal_strlit("content-type");
    assert forall|i: int| 0 <= i < name.len() implies text::ascii_lower(#[trigger] name[i])
        == name[i] by {}
    if text::same_uncased(s, name) {
        assert(text::ascii_lowercase(s) =~= name);
    }
    if text::ascii_lowercase(s) == name {
        assert forall|i: int| 0 <= i < s.len() implies text::ascii_lower(#[trigger] s[i])
            == text::ascii_lower(name[i]) by {
            assert(text::ascii_lowercase(s)[i] == name[i]);
        }
    }
}

/// Turns a response of Rocket into one for Lambda: the same status, the same
/// headers, and the body encoded as the configuration has it for the content
/// type.
///
/// Fails where the body cannot be encoded; otherwise where the status or a
/// header is not valid. More than `SURE_HEADERS` headers may be too many.
pub fn create_lambda_response(
    config: &Config,
    status: u16,
    headers: &rocket::http::HeaderMap<'_>,
    body: Option<Vec<u8>>,
) -> (result: Result<LambdaResponse, RocketLambError>)
    ensures
        ({
            let entries = outside::rocket_header_entries(*headers);
            let encoded = encoded_body(
                config.response_type_of(content_type(entries)),
                optional_bytes(body),
            );
            match result {
                Ok(response) => {
                    &&& head_failure(status, entries) is None
                    &&& response.status == status
                    &&& headers::same_headers(
                        outside::header_entries(response.headers),
                        handed_on(entries),
                    )
                    &&& encoded == Ok::<BodyView, Seq<char>>(response.body@)
                },
                Err(error) => match encoded {
                    Err(message) => error.is_invalid_response(message),
                    Ok(_) => {
                        ||| head_failure(status, entries) matches Some(message)
                            && error.is_invalid_response(message)
                        ||| entries.len() > SURE_HEADERS && error.is_invalid_response(
                            "max size reached"@,
                        )
                    },
                },
            }
        }),
        outside::rocket_header_entries(*headers).len() <= 6554 && head_failure(
            status,
            outside::rocket_header_entries(*headers),
        ) is None && (body is None || valid_utf8(body->0@)) ==> result is Ok,
        body is None && result is Ok ==> result->Ok_0.body is Empty,
        body is Some && result is Ok ==> {
            let bytes = body->0;
            let response = result->Ok_0;
            let found = config.response_type_of(
                content_type(outside::rocket_header_entries(*headers)),
            );
            &&& response.body is Text <==> valid_utf8(bytes@) && found != ResponseType::Binary
            &&& response.body is Binary <==> found == ResponseType::Binary || !valid_utf8(bytes@)
            &&& response.body is Text ==> encode_utf8(response.body->Text_0@) == bytes@
            &&& response.body is Binary ==> response.body->Binary_0@ == bytes@
            &&& !valid_utf8(bytes@) ==> found != ResponseType::Text
        },
{
    let list = rocket_header_list(headers);
    let response_type = match rocket_header(headers, "content-type") {
        Some(content_type) => config.find_response_type(content_type.as_str()),
        None => {
            proof {
                reveal_strlit("");
                assert(""@ =~= Seq::empty());
            }
            config.find_response_type("")
        },
    };
    let body = match encode_body(response_type, body) {
        Ok(body) => body,
        Err(error) => {
            return Err(error);
        },
    };
    match build_head(status, &list) {
        Ok((status, headers)) => Ok(LambdaResponse { status, headers, body }),
        Err(message) => Err(RocketLambError::InvalidResponse(message)),
    }
}

} // verus!
