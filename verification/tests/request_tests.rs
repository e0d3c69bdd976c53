use http::header::{HeaderMap, HeaderName, HeaderValue};
use lamedh_http::StrMap;

use rocket_lamb::body::Body;
use rocket_lamb::config::{BasePathBehaviour, Config};
use rocket_lamb::context::{AlbContext, RequestContext};
use rocket_lamb::error::RocketLambError;
use rocket_lamb::request::{
    create_rocket_request, read_headers, to_rocket_method, LambdaRequest, Method,
};

fn config() -> Config {
    Config::new(BasePathBehaviour::Include)
}

fn request(method: &str, headers: &[(&str, &[u8])]) -> LambdaRequest {
    let mut map = HeaderMap::new();
    for (name, value) in headers {
        map.append(
            HeaderName::from_bytes(name.as_bytes()).unwrap(),
            HeaderValue::from_bytes(value).unwrap(),
        );
    }
    LambdaRequest {
        method: method.to_string(),
        full_path: "/full".to_string(),
        api_path: "/api".to_string(),
        query: StrMap::default(),
        headers: map,
        context: RequestContext::Alb(AlbContext { target_group_arn: Some("arn".to_string()) }),
        body: Body::Binary(vec![1, 2]),
    }
}

fn invalid(message: &str) -> RocketLambError {
    RocketLambError::InvalidRequest(message.to_string())
}

#[test]
fn known_methods() {
    for (name, method) in [
        ("GET", Method::Get),
        ("PUT", Method::Put),
        ("POST", Method::Post),
        ("DELETE", Method::Delete),
        ("OPTIONS", Method::Options),
        ("HEAD", Method::Head),
        ("TRACE", Method::Trace),
        ("CONNECT", Method::Connect),
        ("PATCH", Method::Patch),
    ] {
        assert_eq!(to_rocket_method(name), Ok(method));
    }
}

#[test]
fn unknown_methods() {
    for name in ["get", "", "GETS", "PURGE"] {
        assert_eq!(to_rocket_method(name), Err(invalid(&format!("unknown method '{}'", name))));
    }
}

#[test]
fn request_is_handed_on() {
    let req = request("PUT", &[("Accept", b"a"), ("x-b", b"\tb ~"), ("accept", b"c")]);
    let res = create_rocket_request(&config(), req).ok().unwrap();
    assert_eq!(res.method, Method::Put);
    assert_eq!(res.uri, "/full");
    assert_eq!(res.body, Body::Binary(vec![1, 2]));
    let pairs: Vec<(&str, &str)> =
        res.headers.iter().map(|(name, value)| (name.as_str(), value.as_str())).collect();
    assert_eq!(
        pairs,
        vec![
            ("accept", "a"),
            ("accept", "c"),
            ("x-b", "\tb ~"),
            ("x-amz-req-ctx-target-group-arn", "arn"),
        ]
    );
}

#[test]
fn header_that_is_not_text_is_refused() {
    let req = request("GET", &[("x-a", b"ok"), ("X-Bad", b"caf\xc3\xa9"), ("x-worse", b"\xff")]);
    let res = create_rocket_request(&config(), req);
    assert_eq!(res.err(), Some(invalid("invalid value for header 'x-bad'")));
}

#[test]
fn method_is_looked_at_before_the_headers() {
    let res = create_rocket_request(&config(), request("BREW", &[("x-bad", b"\xff")]));
    assert_eq!(res.err(), Some(invalid("unknown method 'BREW'")));
}

#[test]
fn all_values_have_to_be_text() {
    let entry = |name: &str, value: &[u8]| (name.to_string(), value.to_vec());
    let list = vec![entry("a", b"1"), entry("b", b"\n"), entry("c", b"\xff")];
    assert_eq!(read_headers(&list), Err(invalid("invalid value for header 'b'")));
    let list = vec![entry("A", b"1"), entry("b", b"")];
    assert_eq!(
        read_headers(&list),
        Ok(vec![("A".to_string(), "1".to_string()), ("b".to_string(), String::new())])
    );
    for b in 0u8..=255 {
        let read = read_headers(&vec![entry("a", &[b])]);
        assert_eq!(read.is_ok(), b == 9 || (32..127).contains(&b), "{}", b);
    }
}
