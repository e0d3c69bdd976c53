use std::collections::HashMap;

use lamedh_http::StrMap;

use rocket_lamb::body::Body;
use rocket_lamb::config::{BasePathBehaviour, Config};
use rocket_lamb::context::RequestContext;
use rocket_lamb::request::{get_path_and_query, LambdaRequest};
use rocket_lamb::text::{before, join, same_text};
use rocket_lamb::uri::append_query;

fn grouped(params: &[(&str, &[&str])]) -> Vec<(String, Vec<String>)> {
    params
        .iter()
        .map(|(key, values)| (key.to_string(), values.iter().map(|v| v.to_string()).collect()))
        .collect()
}

fn request(query: HashMap<String, Vec<String>>) -> LambdaRequest {
    LambdaRequest {
        method: "GET".to_string(),
        full_path: "/base/path".to_string(),
        api_path: "/path".to_string(),
        query: StrMap::from(query),
        headers: http::HeaderMap::new(),
        context: RequestContext::ApiGatewayV2,
        body: Body::Empty,
    }
}

fn query(params: &[(&str, &[&str])]) -> HashMap<String, Vec<String>> {
    grouped(params).into_iter().collect()
}

#[test]
fn path_without_parameters_stays() {
    assert_eq!(append_query("/a".to_string(), &grouped(&[])), "/a");
    assert_eq!(append_query("/a".to_string(), &grouped(&[("x", &[])])), "/a");
}

#[test]
fn parameters_are_separated() {
    let uri = append_query("/a".to_string(), &grouped(&[("x", &["1", "2"]), ("y", &[]), ("z", &["3"])]));
    assert_eq!(uri, "/a?x=1&x=2&z=3");
    let uri = append_query(String::new(), &grouped(&[("", &[""])]));
    assert_eq!(uri, "?=");
}

#[test]
fn every_ascii_character_is_encoded_or_kept() {
    let all: String = (0u8..128).map(|b| b as char).collect();
    let kept = "!$'()*,-.0123456789:;@ABCDEFGHIJKLMNOPQRSTUVWXYZ[]_abcdefghijklmnopqrstuvwxyz~";
    let expected: String = all
        .chars()
        .map(|c| {
            if kept.contains(c) {
                c.to_string()
            } else {
                format!("%{:02X}", c as u32)
            }
        })
        .collect();
    let uri = append_query(String::new(), &grouped(&[("k", &[all.as_str()])]));
    assert_eq!(uri, format!("?k={}", expected));
}

#[test]
fn other_characters_are_encoded_as_utf8() {
    let uri = append_query("/".to_string(), &grouped(&[("\u{e9}", &["\u{20ac}", "\u{1f600}"])]));
    assert_eq!(uri, "/?%C3%A9=%E2%82%AC&%C3%A9=%F0%9F%98%80");
}

#[test]
fn different_parameters_give_different_uris() {
    let a = append_query("/".to_string(), &grouped(&[("a", &["b&c=d"])]));
    let b = append_query("/".to_string(), &grouped(&[("a", &["b"]), ("c", &["d"])]));
    assert_eq!(a, "/?a=b%26c%3Dd");
    assert_eq!(b, "/?a=b&c=d");
}

#[test]
fn base_path_is_included_or_not() {
    for (behaviour, uri) in [
        (BasePathBehaviour::Include, "/base/path?k=v%20w"),
        (BasePathBehaviour::RemountAndInclude, "/base/path?k=v%20w"),
        (BasePathBehaviour::Exclude, "/path?k=v%20w"),
    ] {
        let req = request(query(&[("k", &["v w"])]));
        assert_eq!(get_path_and_query(&Config::new(behaviour), &req), uri);
    }
}

#[test]
fn walk_keeps_every_value() {
    let req = request(query(&[("a", &["1", "2"]), ("b", &["3"]), ("c", &["4", "4"])]));
    let uri = get_path_and_query(&Config::new(BasePathBehaviour::Exclude), &req);
    let mut params: Vec<&str> = uri.strip_prefix("/path?").unwrap().split('&').collect();
    let a = params.iter().position(|p| *p == "a=1").unwrap();
    assert_eq!(params[a + 1], "a=2");
    params.sort();
    assert_eq!(params, vec!["a=1", "a=2", "b=3", "c=4", "c=4"]);
}

#[test]
fn key_without_a_value_ends_the_walk() {
    let req = request(query(&[("a", &[])]));
    assert_eq!(get_path_and_query(&Config::new(BasePathBehaviour::Exclude), &req), "/path");
    let req = request(query(&[("a", &[]), ("b", &["1"])]));
    let uri = get_path_and_query(&Config::new(BasePathBehaviour::Exclude), &req);
    assert!(uri == "/path" || uri == "/path?b=1", "{}", uri);
}

#[test]
fn text_helpers() {
    assert_eq!(before("text/plain; charset=utf-8", ';'), "text/plain");
    assert_eq!(before("text/plain", ';'), "text/plain");
    assert_eq!(before(";a", ';'), "");
    assert_eq!(before("\u{e9}\u{20ac};a", ';'), "\u{e9}\u{20ac}");
    assert_eq!(before("", ';'), "");
    assert!(same_text("a\u{e9}", "a\u{e9}"));
    assert!(!same_text("a", "b"));
    assert!(!same_text("a", "aa"));
    assert_eq!(join("a", "b", "c"), "abc");
}
