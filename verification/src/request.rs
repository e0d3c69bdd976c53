//! The way of a request from Lambda to Rocket.
use http::header::{HeaderMap, HeaderValue};
use lamedh_http::StrMap;
use vstd::prelude::*;
use vstd::utf8::*;

use crate::body::Body;
use crate::config::{BasePathBehaviour, Config};
use crate::context;
use crate::context::{map_request_context_to_headers, RequestContext};
use crate::error::RocketLambError;
use crate::headers;
use crate::headers::HeaderEntry;
use crate::outside;
use crate::outside::{header_list, header_text, query_keys, query_values};
use crate::text;
use crate::text::{join, same_text};
use crate::uri;
use crate::uri::append_query;

verus! {

/// The methods that Rocket knows.
#[derive(Clone, Copy, Debug, PartialEq, Eq, Structural)]
pub enum Method {
    Get,
    Put,
    Post,
    Delete,
    Options,
    Head,
    Trace,
    Connect,
    Patch,
}

impl Method {
    /// The name of the method in a request.
    pub open spec fn name(self) -> Seq<char> {
        match self {
            Method::Get => "GET"@,
            Method::Put => "PUT"@,
            Method::Post => "POST"@,
            Method::Delete => "DELETE"@,
            Method::Options => "OPTIONS"@,
            Method::Head => "HEAD"@,
            Method::Trace => "TRACE"@,
            Method::Connect => "CONNECT"@,
            Method::Patch => "PATCH"@,
        }
    }
}

/// The method of the given name, where Rocket knows one.
pub open spec fn method_named(name: Seq<char>) -> Option<Method> {
    if name == "GET"@ {
        Some(Method::Get)
    } else if name == "PUT"@ {
        Some(Method::Put)
    } else if name == "POST"@ {
        Some(Method::Post)
    } else if name == "DELETE"@ {
        Some(Method::Delete)
    } else if name == "OPTIONS"@ {
        Some(Method::Options)
    } else if name == "HEAD"@ {
        Some(Method::Head)
    } else if name == "TRACE"@ {
        Some(Method::Trace)
    } else if name == "CONNECT"@ {
        Some(Method::Connect)
    } else if name == "PATCH"@ {
        Some(Method::Patch)
    } else {
        None
    }
}

/// Each method is the one of its name, and the only one.
pub proof fn law_methods_have_their_names(method: Method, name: Seq<char>)
    ensures
        method_named(name) == Some(method) <==> method.name() == name,
{
    reveal_strlit("GET");
    reveal_strlit("PUT");
    reveal_strlit("POST");
    reveal_strlit("DELETE");
    reveal_strlit("OPTIONS");
    reveal_strlit("HEAD");
    reveal_strlit("TRACE");
    reveal_strlit("CONNECT");
    reveal_strlit("PATCH");
    assert("GET"@[0] == 'G' && "DELETE"@[0] == 'D' && "OPTIONS"@[0] == 'O' && "HEAD"@[0] == 'H'
        && "TRACE"@[0] == 'T' && "CONNECT"@[0] == 'C');
    assert("PUT"@[0] == 'P' && "POST"@[0] == 'P' && "PATCH"@[0] == 'P');
    assert("PUT"@[1] == 'U' && "POST"@[1] == 'O' && "PATCH"@[1] == 'A');
}

/// The methods that Rocket knows are those of nine names, each letter in upper
/// case, and no other name is that of a method.
pub proof fn law_nine_names_are_methods(name: Seq<char>)
    ensures
        method_named(name) == Some(Method::Get) <==> name == "GET"@,
        method_named(name) == Some(Method::Put) <==> name == "PUT"@,
        method_named(name) == Some(Method::Post) <==> name == "POST"@,
        method_named(name) == Some(Method::Delete) <==> name == "DELETE"@,
        method_named(name) == Some(Method::Options) <==> name == "OPTIONS"@,
        method_named(name) == Some(Method::Head) <==> name == "HEAD"@,
        method_named(name) == Some(Method::Trace) <==> name == "TRACE"@,
        method_named(name) == Some(Method::Connect) <==> name == "CONNECT"@,
        method_named(name) == Some(Method::Patch) <==> name == "PATCH"@,
        method_named(name) is None <==> {
            &&& name != "GET"@
            &&& name != "PUT"@
            &&& name != "POST"@
            &&& name != "DELETE"@
            &&& name != "OPTIONS"@
            &&& name != "HEAD"@
            &&& name != "TRACE"@
            &&& name != "CONNECT"@
            &&& name != "PATCH"@
        },
{
    law_methods_have_their_names(Method::Get, name);
    law_methods_have_their_names(Method::Put, name);
    law_methods_have_their_names(Method::Post, name);
    law_methods_have_their_names(Method::Delete, name);
    law_methods_have_their_names(Method::Options, name);
    law_methods_have_their_names(Method::Head, name);
    law_methods_have_their_names(Method::Trace, name);
    law_methods_have_their_names(Method::Connect, name);
    law_methods_have_their_names(Method::Patch, name);
}

/// A request as it comes from Lambda.
pub struct LambdaRequest {
    /// The name of the method.
    pub method: String,
    /// The path with the base path of the API.
    pub full_path: String,
    /// The path without the base path of the API.
    pub api_path: String,
    /// The parameters of the query, decoded.
    pub query: StrMap,
    pub headers: HeaderMap<HeaderValue>,
    pub context: RequestContext,
    pub body: Body,
}

/// A request as Rocket is handed it.
pub struct RocketRequest {
    pub method: Method,
    /// The path and the query.
    pub uri: String,
    pub headers: Vec<(String, String)>,
    pub body: Body,
}

/// Returns the method of the given name.
pub fn to_rocket_method(method: &str) -> (result: Result<Method, RocketLambError>)
    ensures
        match method_named(method@) {
            Some(known) => result == Ok::<Method, RocketLambError>(known),
            None => result matches Err(error) && error.is_invalid_request(
                "unknown method '"@ + method@ + "'"@,
            ),
        },
        result == Ok::<Method, RocketLambError>(Method::Get) <==> method@ == "GET"@,
        result == Ok::<Method, RocketLambError>(Method::Put) <==> method@ == "PUT"@,
        result == Ok::<Method, RocketLambError>(Method::Post) <==> method@ == "POST"@,
        result == Ok::<Method, RocketLambError>(Method::Delete) <==> method@ == "DELETE"@,
        result == Ok::<Method, RocketLambError>(Method::Options) <==> method@ == "OPTIONS"@,
        result == Ok::<Method, RocketLambError>(Method::Head) <==> method@ == "HEAD"@,
        result == Ok::<Method, RocketLambError>(Method::Trace) <==> method@ == "TRACE"@,
        result == Ok::<Method, RocketLambError>(Method::Connect) <==> method@ == "CONNECT"@,
        result == Ok::<Method, RocketLambError>(Method::Patch) <==> method@ == "PATCH"@,
        result matches Err(error) ==> error matches RocketLambError::InvalidRequest(message)
            && message@ == "unknown method '"@ + method@ + "'"@,
{
    proof {
        law_nine_names_are_methods(method@);
    }
    if same_text(method, "GET") {
        Ok(Method::Get)
    } else if same_text(method, "PUT") {
        Ok(Method::Put)
    } else if same_text(method, "POST") {
        Ok(Method::Post)
    } else if same_text(method, "DELETE") {
        Ok(Method::Delete)
    } else if same_text(method, "OPTIONS") {
        Ok(Method::Options)
    } else if same_text(method, "HEAD") {
        Ok(Method::Head)
    } else if same_text(method, "TRACE") {
        Ok(Method::Trace)
    } else if same_text(method, "CONNECT") {
        Ok(Method::Connect)
    } else if same_text(method, "PATCH") {
        Ok(Method::Patch)
    } else {
        Err(RocketLambError::InvalidRequest(join("unknown method '", method, "'")))
    }
}

/// The path that a request is handed on with.
pub open spec fn request_path(config: Config, req: LambdaRequest) -> Seq<char> {
    match config.base_path_behaviour {
        BasePathBehaviour::Include | BasePathBehaviour::RemountAndInclude => req.full_path@,
        BasePathBehaviour::Exclude => req.api_path@,
    }
}

/// Whether `uri` is what a request can be handed on with: its path, and the
/// parameters of its query in an order in which the query can be walked.
pub open spec fn is_request_uri(config: Config, req: LambdaRequest, uri: Seq<char>) -> bool {
    exists|keys: Seq<Seq<char>>| #[trigger]
        outside::is_walk(outside::query_params(req.query), keys) && uri == uri::path_and_query(
            request_path(config, req),
            uri::walked_params(outside::query_params(req.query), keys),
        )
}

/// Whatever the context of a request: its URI starts with its path, and behind
/// the path stands a query of which a reader finds, under each key that it holds
/// at all, the values that the request has under that key, as often and in the
/// order in which the request has them, and next to each other. Where each key
/// has a value, the query holds them all.
pub proof fn law_uri_holds_the_query(
    config: Config,
    req: LambdaRequest,
    uri: Seq<char>,
    path: Seq<char>,
    rest: Seq<char>,
)
    requires
        is_request_uri(config, req, uri),
        path == if config.base_path_behaviour == BasePathBehaviour::Exclude {
            req.api_path@
        } else {
            req.full_path@
        },
        rest == uri.skip(path.len() as int),
    ensures
        uri == path + rest,
        rest.len() > 0 ==> rest[0] == '?',
        uri::is_canonical(rest),
        forall|i: int, j: int, k: int|
            0 <= i < j < k < uri::read_query(rest).len() && (#[trigger] uri::read_query(rest)[i]).0
                == (#[trigger] uri::read_query(rest)[k]).0 ==> (#[trigger] uri::read_query(
                rest,
            )[j]).0 == uri::read_query(rest)[i].0,
        forall|key: Seq<char>|
            (#[trigger] uri::values_of(uri::read_query(rest), key)).len() > 0
                ==> outside::query_params(req.query).contains_key(key) && uri::values_of(
                uri::read_query(rest),
                key,
            ) == outside::query_params(req.query)[key],
        (forall|key: Seq<char>| #[trigger]
            outside::query_params(req.query).contains_key(key) ==> outside::query_params(
                req.query,
            )[key].len() > 0) ==> forall|key: Seq<char>|
            outside::query_params(req.query).contains_key(key) ==> #[trigger] uri::values_of(
                uri::read_query(rest),
                key,
            ) == outside::query_params(req.query)[key],
{
    let query = outside::query_params(req.query);
    let keys = choose|keys: Seq<Seq<char>>| #[trigger]
        outside::is_walk(query, keys) && uri == uri::path_and_query(
            request_path(config, req),
            uri::walked_params(query, keys),
        );
    uri::law_uri_is_read_back(path, uri::walked_params(query, keys));
    assert(uri =~= path + rest);
    assert forall|i: int, j: int, k: int|
        0 <= i < j < k < uri::read_query(rest).len() && (#[trigger] uri::read_query(rest)[i]).0 == (
        #[trigger] uri::read_query(rest)[k]).0 implies (#[trigger] uri::read_query(rest)[j]).0
        == uri::read_query(rest)[i].0 by {
        uri::law_walk_keeps_the_values_together(query, keys, i, j, k);
    }
    assert forall|key: Seq<char>|
        (#[trigger] uri::values_of(uri::read_query(rest),
            key)).len() > 0 implies query.contains_key(
        key,
    ) && uri::values_of(uri::read_query(rest), key) == query[key] by {
        uri::law_walk_keeps_the_values_of_a_key(query, keys, key);
    }
    if forall|key: Seq<char>| #[trigger] query.contains_key(key) ==> query[key].len() > 0 {
        assert forall|key: Seq<char>| query.contains_key(key) implies #[trigger] uri::values_of(
            uri::read_query(rest),
            key,
        ) == query[key] by {
            uri::law_walk_keeps_the_values_of_a_key(query, keys, key);
        }
    }
}

/// Returns the URI that a request is handed on with.
pub fn get_path_and_query(config: &Config, req: &LambdaRequest) -> (uri: String)
    ensures
        is_request_uri(*config, *req, uri@),
        config.base_path_behaviour == BasePathBehaviour::Exclude ==> uri::is_read_back(
            uri@,
            req.api_path@,
            outside::query_params(req.query),
        ),
        config.base_path_behaviour != BasePathBehaviour::Exclude ==> uri::is_read_back(
            uri@,
            req.full_path@,
            outside::query_params(req.query),
        ),
{
    let path = match config.base_path_behaviour {
        BasePathBehaviour::Include | BasePathBehaviour::RemountAndInclude => req.full_path.clone(),
        BasePathBehaviour::Exclude => req.api_path.clone(),
    };
    let keys = query_keys(&req.query);
    let ghost query = outside::query_params(req.query);
    let ghost walk = text::texts(keys@);
    let ghost all = walk.map_values(|key: Seq<char>| (key, query[key]));
    let mut grouped: Vec<(String, Vec<String>)> = Vec::new();
    let mut i: usize = 0;
    while i < keys.len()
        invariant
            i <= keys@.len(),
            query == outside::query_params(req.query),
            walk == text::texts(keys@),
            outside::is_walk(query, walk),
            all == walk.map_values(|key: Seq<char>| (key, query[key])),
            uri::grouped_texts(grouped@) == all.take(i as int),
        decreases keys@.len() - i,
    {
        proof {
            assert(walk[i as int] == keys@[i as int]@);
            assert(all.take(i + 1) =~= all.take(i as int).push(all[i as int]));
        }
        match query_values(&req.query, keys[i].as_str()) {
            Some(values) => {
                let ghost before = grouped@;
                grouped.push((keys[i].clone(), values));
                proof {
                    assert(uri::grouped_texts(grouped@) =~= uri::grouped_texts(before).push(
                        all[i as int],
                    ));
                }
            },
            None => {},
        }
        i = i + 1;
    }
    proof {
        assert(all.take(keys@.len() as int) =~= all);
    }
    let uri = append_query(path, &grouped);
    proof {
        let path = request_path(*config, *req);
        law_uri_holds_the_query(*config, *req, uri@, path, uri@.skip(path.len() as int));
    }
    uri
}

/// The name of the first header whose value is not text.
pub open spec fn first_unreadable(entries: Seq<HeaderEntry>) -> Option<Seq<char>>
    decreases entries.len(),
{
    if entries.len() == 0 {
        None
    } else if !headers::is_text(entries[0].1) {
        Some(entries[0].0)
    } else {
        first_unreadable(entries.drop_first())
    }
}

/// Headers with their values as text.
pub open spec fn readable(entries: Seq<HeaderEntry>) -> Seq<(Seq<char>, Seq<char>)> {
    entries.map_values(|entry: HeaderEntry| (entry.0, headers::value_as_text(entry.1)))
}

/// The first header whose value holds a byte other than a tab, a space or a
/// visible ASCII character is the one that cannot be read, and where no value
/// holds such a byte, all can.
///
/// `n` headers come before it.
pub proof fn law_first_other_byte_is_unreadable(entries: Seq<HeaderEntry>, n: int)
    requires
        0 <= n <= entries.len(),
        forall|i: int, k: int|
            0 <= i < n && 0 <= k < entries[i].1.len() ==> 32 <= #[trigger] entries[i].1[k] < 127
                || entries[i].1[k] == 9,
        n < entries.len() ==> exists|k: int|
            0 <= k < entries[n].1.len() && !(32 <= #[trigger] entries[n].1[k] < 127
                || entries[n].1[k] == 9),
    ensures
        n < entries.len() ==> first_unreadable(entries) == Some(entries[n].0),
        n == entries.len() ==> first_unreadable(entries) is None,
    decreases entries.len(),
{
    if n > 0 {
        let rest = entries.drop_first();
        assert(forall|i: int| 0 <= i < rest.len() ==> #[trigger] rest[i] == entries[i + 1]);
        assert forall|i: int, k: int| 0 <= i < n - 1 && 0 <= k < rest[i].1.len() implies 32
            <= #[trigger] rest[i].1[k] < 127 || rest[i].1[k] == 9 by {
            assert(rest[i].1[k] == entries[i + 1].1[k]);
        }
        assert(headers::is_text(entries[0].1));
        if n < entries.len() {
            let k = choose|k: int|
                0 <= k < entries[n].1.len() && !(32 <= #[trigger] entries[n].1[k] < 127
                    || entries[n].1[k] == 9);
            assert(rest[n - 1] == entries[n]);
            assert(rest[n - 1].1[k] == entries[n].1[k]);
        }
        law_first_other_byte_is_unreadable(rest, n - 1);
    } else if entries.len() > 0 {
        let k = choose|k: int|
            0 <= k < entries[0].1.len() && !(32 <= #[trigger] entries[0].1[k] < 127
                || entries[0].1[k] == 9);
        assert(!headers::is_visible(entries[0].1[k]));
        assert(entries[n] == entries[0]);
    }
}

/// Either some value cannot be read, or every byte of every value is a tab, a
/// space or a visible ASCII character.
proof fn lemma_readable_bytes(entries: Seq<HeaderEntry>)
    ensures
        first_unreadable(entries) is None <==> forall|i: int, k: int|
            0 <= i < entries.len() && 0 <= k < entries[i].1.len() ==> 32
                <= #[trigger] entries[i].1[k] < 127 || entries[i].1[k] == 9,
    decreases entries.len(),
{
    if entries.len() > 0 {
        let rest = entries.drop_first();
        lemma_readable_bytes(rest);
        if first_unreadable(entries) is None {
            assert forall|i: int, k: int|
                0 <= i < entries.len() && 0 <= k < entries[i].1.len() implies 32
                <= #[trigger] entries[i].1[k] < 127 || entries[i].1[k] == 9 by {
                if i == 0 {
                    assert(headers::is_visible(entries[0].1[k]));
                } else {
                    assert(rest[i - 1] == entries[i]);
                    assert(rest[i - 1].1[k] == entries[i].1[k]);
                }
            }
        }
        if forall|i: int, k: int|
            0 <= i < entries.len() && 0 <= k < entries[i].1.len() ==> 32
                <= #[trigger] entries[i].1[k] < 127 || entries[i].1[k] == 9 {
            assert(headers::is_text(entries[0].1));
            assert forall|i: int, k: int|
                0 <= i < rest.len() && 0 <= k < rest[i].1.len() implies 32
                <= #[trigger] rest[i].1[k] < 127 || rest[i].1[k] == 9 by {
                assert(rest[i] == entries[i + 1]);
                assert(rest[i].1[k] == entries[i + 1].1[k]);
            }
        }
    }
}

/// Headers that can be read keep their names, and the text of each value is
/// written in the bytes of the value.
pub proof fn law_reading_keeps_names_and_bytes(entries: Seq<HeaderEntry>, i: int)
    requires
        first_unreadable(entries) is None,
        0 <= i < entries.len(),
    ensures
        readable(entries).len() == entries.len(),
        readable(entries)[i].0 == entries[i].0,
        encode_utf8(readable(entries)[i].1) == entries[i].1,
{
    let bytes = entries[i].1;
    let chars = readable(entries)[i].1;
    lemma_readable_bytes(entries);
    assert forall|k: int| 0 <= k < chars.len() implies 0 <= #[trigger] chars[k] as u32 <= 127 by {
        assert(chars[k] == bytes[k] as char);
        assert(32 <= entries[i].1[k] < 127 || entries[i].1[k] == 9);
    }
    assert(is_ascii_chars(chars));
    is_ascii_chars_encode_utf8(chars);
    assert(encode_utf8(chars) =~= bytes);
}

/// Reads the values of headers as text. Fails at the first value that is not
/// text.
pub fn read_headers(list: &Vec<(String, Vec<u8>)>) -> (result: Result<
    Vec<(String, String)>,
    RocketLambError,
>)
    ensures
        match first_unreadable(headers::entries_of(list@)) {
            None => result matches Ok(read) && text::pair_texts(read@) == readable(
                headers::entries_of(list@),
            ),
            Some(name) => result matches Err(error) && error.is_invalid_request(
                "invalid value for header '"@ + name + "'"@,
            ),
        },
        result is Ok <==> forall|i: int, k: int|
            0 <= i < list@.len() && 0 <= k < list@[i].1@.len() ==> 32 <= #[trigger] list@[i].1@[k]
                < 127 || list@[i].1@[k] == 9,
        result matches Ok(read) ==> {
            &&& read@.len() == list@.len()
            &&& forall|i: int|
                0 <= i < list@.len() ==> (#[trigger] read@[i]).0@ == list@[i].0@ && encode_utf8(
                    read@[i].1@,
                ) == list@[i].1@
        },
        result matches Err(error) ==> error is InvalidRequest && exists|i: int|
            0 <= i < list@.len() && error->InvalidRequest_0@ == "invalid value for header '"@ + (
            #[trigger] list@[i]).0@ + "'"@,
{
    let ghost entries = headers::entries_of(list@);
    proof {
        assert forall|i: int| 0 <= i < list@.len() implies (#[trigger] entries[i]).0 == list@[i].0@
            && entries[i].1 == list@[i].1@ by {}
        lemma_readable_bytes(entries);
        if first_unreadable(entries) is None {
            assert forall|i: int, k: int|
                0 <= i < list@.len() && 0 <= k < list@[i].1@.len() implies 32
                <= #[trigger] list@[i].1@[k] < 127 || list@[i].1@[k] == 9 by {
                assert(entries[i].1[k] == list@[i].1@[k]);
            }
        } else if forall|i: int, k: int|
            0 <= i < list@.len() && 0 <= k < list@[i].1@.len() ==> 32 <= #[trigger] list@[i].1@[k]
                < 127 || list@[i].1@[k] == 9 {
            assert forall|i: int, k: int|
                0 <= i < entries.len() && 0 <= k < entries[i].1.len() implies 32
                <= #[trigger] entries[i].1[k] < 127 || entries[i].1[k] == 9 by {
                assert(entries[i].1[k] == list@[i].1@[k]);
            }
        }
    }
    let mut read: Vec<(String, String)> = Vec::new();
    let mut i: usize = 0;
    proof {
        assert(entries.skip(0) =~= entries);
    }
    while i < list.len()
        invariant
            i <= list@.len(),
            entries == headers::entries_of(list@),
            first_unreadable(entries) == first_unreadable(entries.skip(i as int)),
            text::pair_texts(read@) == readable(entries).take(i as int),
        decreases list@.len() - i,
    {
        let name = &list[i].0;
        proof {
            assert(entries.skip(i as int)[0] == entries[i as int]);
        }
        match header_text(&list[i].1) {
            Some(value) => {
                let ghost before = read@;
                let ghost pair = (name@, value@);
                read.push((name.clone(), value));
                proof {
                    assert(text::pair_texts(read@) =~= text::pair_texts(before).push(pair));
                    assert(readable(entries).take(i + 1) =~= readable(entries).take(i as int).push(
                        readable(entries)[i as int],
                    ));
                    assert(entries.skip(i as int).drop_first() =~= entries.skip(i + 1));
                }
            },
            None => {
                proof {
                    assert(list@[i as int].0@ == name@);
                }
                return Err(
                    RocketLambError::InvalidRequest(
                        join("invalid value for header '", name.as_str(), "'"),
                    ),
                );
            },
        }
        i = i + 1;
    }
    proof {
        assert(readable(entries).take(list@.len() as int) =~= readable(entries));
        assert forall|i: int| 0 <= i < list@.len() implies (#[trigger] read@[i]).0@ == list@[i].0@
            && encode_utf8(read@[i].1@) == list@[i].1@ by {
            law_reading_keeps_names_and_bytes(entries, i);
            assert(text::pair_texts(read@)[i] == readable(entries)[i]);
        }
    }
    Ok(read)
}

/// Whether `list` holds the headers that a request is handed on with: its own
/// in their order, and then those of its context in some order.
pub open spec fn are_request_headers(
    req: LambdaRequest,
    list: Seq<(Seq<char>, Seq<char>)>,
) -> bool {
    let own = readable(outside::header_entries(req.headers));
    &&& own.len() <= list.len()
    &&& list.take(own.len() as int) == own
    &&& context::is_listing(
        list.skip(own.len() as int),
        context::with_fields(Map::empty(), context::context_fields(req.context)),
    )
}

/// Turns a request of Lambda into one for Rocket.
///
/// Fails where Rocket does not know the method; otherwise where the value of a
/// header is not text.
pub fn create_rocket_request(config: &Config, req: LambdaRequest) -> (result: Result<
    RocketRequest,
    RocketLambError,
>)
    ensures
        match result {
            Ok(request) => {
                &&& method_named(req.method@) == Some(request.method)
                &&& is_request_uri(*config, req, request.uri@)
                &&& first_unreadable(outside::header_entries(req.headers)) is None
                &&& are_request_headers(req, text::pair_texts(request.headers@))
                &&& request.body == req.body
            },
            Err(error) => if method_named(req.method@) is None {
                error.is_invalid_request("unknown method '"@ + req.method@ + "'"@)
            } else {
                first_unreadable(outside::header_entries(req.headers)) matches Some(name)
                    && error.is_invalid_request("invalid value for header '"@ + name + "'"@)
            },
        },
        result matches Ok(request) ==> {
            let own = outside::header_entries(req.headers);
            let of_context = context::with_fields(
                Map::empty(),
                context::context_fields(req.context),
            );
            &&& own.len() <= request.headers@.len()
            &&& forall|i: int|
                0 <= i < own.len() ==> (#[trigger] request.headers@[i]).0@ == own[i].0
                    && encode_utf8(request.headers@[i].1@) == own[i].1
            &&& forall|i: int|
                own.len() <= i < request.headers@.len() ==> of_context.contains_key(
                    (#[trigger] request.headers@[i]).0@,
                ) && of_context[request.headers@[i].0@] == request.headers@[i].1@
            &&& forall|name: Seq<char>| #[trigger]
                of_context.contains_key(name) ==> exists|i: int|
                    own.len() <= i < request.headers@.len() && (#[trigger] request.headers@[i]).0@
                        == name
            &&& forall|i: int, j: int|
                own.len() <= i < j < request.headers@.len() ==> (#[trigger] request.headers@[i]).0@
                    != (#[trigger] request.headers@[j]).0@
        },
        result matches Ok(request) ==> {
            &&& config.base_path_behaviour == BasePathBehaviour::Exclude ==> uri::is_read_back(
                request.uri@,
                req.api_path@,
                outside::query_params(req.query),
            )
            &&& config.base_path_behaviour != BasePathBehaviour::Exclude ==> uri::is_read_back(
                request.uri@,
                req.full_path@,
                outside::query_params(req.query),
            )
        },
{
    let method = match to_rocket_method(req.method.as_str()) {
        Ok(method) => method,
        Err(error) => {
            return Err(error);
        },
    };
    let uri = get_path_and_query(config, &req);
    let list = header_list(&req.headers);
    let mut headers = match read_headers(&list) {
        Ok(headers) => headers,
        Err(error) => {
            return Err(error);
        },
    };
    let mut of_context = map_request_context_to_headers(req.context).into_entries();
    let ghost own = headers@;
    let ghost added = of_context@;
    let ghost of_request = context::with_fields(
        Map::empty(),
        context::context_fields(req.context),
    );
    proof {
        let entries = outside::header_entries(req.headers);
        assert forall|i: int| 0 <= i < own.len() implies (#[trigger] own[i]).0@ == entries[i].0
            && encode_utf8(own[i].1@) == entries[i].1 by {
            assert(entries[i] == headers::entries_of(list@)[i]);
        }
    }
    headers.append(&mut of_context);
    proof {
        let list = text::pair_texts(headers@);
        let n = own.len() as int;
        assert(list.take(n) =~= text::pair_texts(own));
        assert(list.skip(n) =~= text::pair_texts(added));
        assert forall|i: int| 0 <= i < n implies #[trigger] headers@[i] == own[i] by {}
        assert forall|i: int| n <= i < headers@.len() implies #[trigger] headers@[i] == added[i
            - n] by {}
        assert forall|name: Seq<char>| #[trigger] of_request.contains_key(name) implies exists|
            i: int,
        | n <= i < headers@.len() && (#[trigger] headers@[i]).0@ == name by {
            let i = choose|i: int| 0 <= i < added.len() && (#[trigger] added[i]).0@ == name;
            assert(headers@[n + i].0@ == name);
        }
    }
    Ok(RocketRequest { method, uri, headers, body: req.body })
}

} // verus!
