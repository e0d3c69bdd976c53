use rocket::http::{Header, HeaderMap};

use rocket_lamb::body::Body;
use rocket_lamb::config::{BasePathBehaviour, Config, ResponseType};
use rocket_lamb::error::RocketLambError;
use rocket_lamb::response::{build_head, create_lambda_response, encode_body};

fn config() -> Config {
    Config::new(BasePathBehaviour::Include)
}

fn headers(pairs: &[(&str, &str)]) -> HeaderMap<'static> {
    let mut map = HeaderMap::new();
    for (name, value) in pairs {
        map.add(Header::new(name.to_string(), value.to_string()));
    }
    map
}

fn list(pairs: &[(&str, &str)]) -> Vec<(String, String)> {
    pairs.iter().map(|(name, value)| (name.to_string(), value.to_string())).collect()
}

fn invalid(message: &str) -> RocketLambError {
    RocketLambError::InvalidResponse(message.to_string())
}

#[test]
fn bodies_are_encoded() {
    let text = || Some(b"caf\xc3\xa9".to_vec());
    let other = || Some(vec![0xff, 0x00]);
    let cafe = "caf\u{e9}".to_string();
    assert_eq!(encode_body(ResponseType::Auto, text()), Ok(Body::Text(cafe.clone())));
    assert_eq!(encode_body(ResponseType::Auto, other()), Ok(Body::Binary(vec![0xff, 0x00])));
    assert_eq!(encode_body(ResponseType::Text, text()), Ok(Body::Text(cafe.clone())));
    assert_eq!(
        encode_body(ResponseType::Text, other()),
        Err(invalid("failed to read response body as UTF-8"))
    );
    assert_eq!(encode_body(ResponseType::Binary, text()), Ok(Body::Binary(cafe.into_bytes())));
    for response_type in [ResponseType::Auto, ResponseType::Text, ResponseType::Binary] {
        assert_eq!(encode_body(response_type, None), Ok(Body::Empty));
    }
    assert_eq!(encode_body(ResponseType::Auto, Some(vec![])), Ok(Body::Text(String::new())));
}

#[test]
fn response_types_are_found() {
    let config = config()
        .response_type("Image/PNG", ResponseType::Binary)
        .response_type("a/\u{c9}", ResponseType::Text)
        .default_response_type(ResponseType::Text)
        .response_type("text/plain", ResponseType::Auto);
    for (content_type, response_type) in [
        ("image/png", ResponseType::Binary),
        ("IMAGE/png;q=1;r=2", ResponseType::Binary),
        ("image/png ;q=1", ResponseType::Text),
        (" image/png", ResponseType::Text),
        ("text/plain;", ResponseType::Auto),
        ("A/\u{e9};x", ResponseType::Text),
        ("", ResponseType::Text),
        (";image/png", ResponseType::Text),
    ] {
        assert_eq!(config.find_response_type(content_type), response_type, "{}", content_type);
    }
    let config = config.response_type("IMAGE/PNG", ResponseType::Auto);
    assert_eq!(config.find_response_type("image/png"), ResponseType::Auto);
}

#[test]
fn lower_case_is_that_of_unicode() {
    let config = config().response_type("a/\u{c9}", ResponseType::Binary);
    assert_eq!(config.find_response_type("A/\u{e9}"), ResponseType::Binary);
}

#[test]
fn missing_content_type_counts_as_empty() {
    let config = config().response_type("", ResponseType::Binary);
    let res = create_lambda_response(&config, 200, &headers(&[]), Some(b"a".to_vec())).ok().unwrap();
    assert_eq!(res.body, Body::Binary(b"a".to_vec()));
}

#[test]
fn first_content_type_counts() {
    let config = config().response_type("a/b", ResponseType::Binary);
    let map = headers(&[("X-A", "1"), ("CONTENT-type", "A/B; c"), ("content-type", "d/e")]);
    let res = create_lambda_response(&config, 201, &map, Some(b"a".to_vec())).ok().unwrap();
    assert_eq!(res.status, 201);
    assert_eq!(res.body, Body::Binary(b"a".to_vec()));
    let values: Vec<&[u8]> =
        res.headers.get_all("content-type").iter().map(|v| v.as_bytes()).collect();
    assert_eq!(values, vec![&b"A/B; c"[..], &b"d/e"[..]]);
}

#[test]
fn head_is_built() {
    let pairs = list(&[("Set-Cookie", "a"), ("X-\"~|^`", "\tcaf\u{e9} \u{80}"), ("set-cookie", "b")]);
    let (status, map) = build_head(599, &pairs).unwrap();
    assert_eq!(status, 599);
    assert_eq!(map.len(), 3);
    let cookies: Vec<&[u8]> = map.get_all("set-cookie").iter().map(|v| v.as_bytes()).collect();
    assert_eq!(cookies, vec![&b"a"[..], &b"b"[..]]);
    let name = http::header::HeaderName::from_bytes(b"x-\"~|^`").unwrap();
    assert_eq!(map.get(name).unwrap().as_bytes(), "\tcaf\u{e9} \u{80}".as_bytes());
}

#[test]
fn invalid_heads_are_refused() {
    for status in [0, 99, 1000, 65535] {
        let message = build_head(status, &list(&[(" ", "\n")])).unwrap_err();
        assert_eq!(message, "invalid status code");
    }
    for status in [100, 999] {
        assert!(build_head(status, &list(&[])).is_ok());
    }
    for name in ["", " ", "a b", "a:b", "a(", "\u{e9}", "a{", "a/b", "a\u{0}"] {
        let message = build_head(200, &list(&[("a", "b"), (name, "\n"), ("c", "\n")])).unwrap_err();
        assert_eq!(message, "invalid HTTP header name", "{}", name);
    }
    for value in ["\n", "a\u{0}", "\u{7f}", "\r"] {
        let message = build_head(200, &list(&[("a", "b"), ("c", value), ("", "")])).unwrap_err();
        assert_eq!(message, "failed to parse header value");
    }
    let longest = "A".repeat(65535);
    assert!(build_head(200, &list(&[(longest.as_str(), "")])).is_ok());
    let too_long = "a".repeat(65536);
    let message = build_head(200, &list(&[(too_long.as_str(), "")])).unwrap_err();
    assert_eq!(message, "invalid HTTP header name");
}

#[test]
fn every_ascii_character_is_kept_or_refused_in_a_header() {
    let names = "!\"#$%&'*+-.0123456789ABCDEFGHIJKLMNOPQRSTUVWXYZ^_`abcdefghijklmnopqrstuvwxyz|~";
    for b in 0u8..128 {
        let text = (b as char).to_string();
        let named = build_head(200, &list(&[(text.as_str(), "v")]));
        assert_eq!(named.is_ok(), names.contains(b as char), "{}", b);
        if let Ok((_, map)) = named {
            let name = map.keys().next().unwrap().as_str();
            assert_eq!(name, text.to_ascii_lowercase());
        }
        let valued = build_head(200, &list(&[("n", text.as_str())]));
        assert_eq!(valued.is_ok(), b == 9 || (b >= 32 && b != 127), "{}", b);
    }
}

#[test]
fn many_headers_are_taken() {
    let pairs: Vec<(String, String)> =
        (0..6554).map(|i| (format!("x-{}", i), i.to_string())).collect();
    let (_, map) = build_head(200, &pairs).unwrap();
    assert_eq!(map.len(), 6554);
    let pairs: Vec<(String, String)> =
        (0..40000).map(|i| (format!("x-{}", i), i.to_string())).collect();
    assert_eq!(build_head(200, &pairs).unwrap_err(), "max size reached");
}

#[test]
fn body_is_looked_at_before_the_head() {
    let config = config().default_response_type(ResponseType::Text);
    let res = create_lambda_response(&config, 99, &headers(&[]), Some(vec![0xff]));
    assert_eq!(res.err(), Some(invalid("failed to read response body as UTF-8")));
    let res = create_lambda_response(&config, 99, &headers(&[]), None);
    assert_eq!(res.err(), Some(invalid("invalid status code")));
    let res = create_lambda_response(&config, 200, &headers(&[("a b", "c")]), None);
    assert_eq!(res.err(), Some(invalid("invalid HTTP header name")));
    let res = create_lambda_response(&config, 200, &headers(&[("a", "c\n")]), None);
    assert_eq!(res.err(), Some(invalid("failed to parse header value")));
}
