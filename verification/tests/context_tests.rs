use std::collections::HashMap;

use serde_json::Value;

use rocket_lamb::context::{
    add_api_gw_v1_headers, add_authorizer_headers, add_identity_ctx_headers,
    map_request_context_to_headers, AlbContext, ContextHeaders, Identity, ProxyContext, RequestContext,
};

fn no_identity() -> Identity {
    Identity {
        cognito_identity_pool_id: None,
        account_id: None,
        cognito_identity_id: None,
        caller: None,
        api_key: None,
        access_key: None,
        source_ip: None,
        cognito_authentication_type: None,
        cognito_authentication_provider: None,
        user_arn: None,
        user_agent: None,
        user: None,
    }
}

fn no_context() -> ProxyContext {
    ProxyContext {
        account_id: None,
        resource_id: None,
        stage: None,
        domain_name: None,
        domain_prefix: None,
        protocol: None,
        identity: no_identity(),
        resource_path: None,
        authorizer: Vec::new(),
        request_time: None,
        apiid: None,
    }
}

fn some(value: &str) -> Option<String> {
    Some(value.to_string())
}

fn entries(headers: ContextHeaders) -> HashMap<String, String> {
    let list = headers.into_entries();
    let len = list.len();
    let map: HashMap<String, String> = list.into_iter().collect();
    assert_eq!(map.len(), len, "no name should occur twice");
    map
}

fn map(pairs: &[(&str, &str)]) -> HashMap<String, String> {
    pairs.iter().map(|(name, value)| (name.to_string(), value.to_string())).collect()
}

#[test]
fn unknown_fields_are_left_out() {
    let headers = map_request_context_to_headers(RequestContext::ApiGatewayV1(no_context()));
    assert_eq!(entries(headers), map(&[]));
    let headers = map_request_context_to_headers(RequestContext::ApiGatewayV2);
    assert_eq!(entries(headers), map(&[]));
    let alb = AlbContext { target_group_arn: None };
    assert_eq!(entries(map_request_context_to_headers(RequestContext::Alb(alb))), map(&[]));
}

#[test]
fn load_balancer_is_named() {
    let alb = AlbContext { target_group_arn: some("arn") };
    let headers = map_request_context_to_headers(RequestContext::Alb(alb));
    assert_eq!(entries(headers), map(&[("x-amz-req-ctx-target-group-arn", "arn")]));
}

#[test]
fn every_field_of_a_context_has_its_header() {
    let ctx = ProxyContext {
        account_id: some("1"),
        resource_id: some("2"),
        stage: some("3"),
        domain_name: some("4"),
        domain_prefix: some("5"),
        protocol: some("6"),
        identity: Identity {
            cognito_identity_pool_id: some("7"),
            account_id: some("8"),
            cognito_identity_id: some("9"),
            caller: some("10"),
            api_key: some("11"),
            access_key: some("12"),
            source_ip: some("13"),
            cognito_authentication_type: some("14"),
            cognito_authentication_provider: some("15"),
            user_arn: some("16"),
            user_agent: some("17"),
            user: some("18"),
        },
        resource_path: some("19"),
        authorizer: vec![
            ("principalId".to_string(), Value::String("me \"too\"".to_string())),
            ("n".to_string(), Value::from(5)),
            ("b".to_string(), Value::Bool(true)),
            ("list".to_string(), Value::Array(vec![Value::Null, Value::from(-1)])),
        ],
        request_time: some("20"),
        apiid: some("21"),
    };
    let headers = map_request_context_to_headers(RequestContext::ApiGatewayV1(ctx));
    assert_eq!(
        entries(headers),
        map(&[
            ("x-amz-req-ctx-account-id", "1"),
            ("x-amz-req-ctx-resource-id", "2"),
            ("x-amz-req-ctx-stage", "3"),
            ("x-amz-req-ctx-domain-name", "4"),
            ("x-amz-req-ctx-domain-prefix", "5"),
            ("x-amz-req-ctx-protocol", "6"),
            ("x-amz-req-ctx-id-cognito-identity-pool-id", "7"),
            ("x-amz-req-ctx-id-account-id", "8"),
            ("x-amz-req-ctx-id-cognito-identity-id", "9"),
            ("x-amz-req-ctx-id-caller", "10"),
            ("x-amz-req-ctx-id-api-key", "11"),
            ("x-amz-req-ctx-id-access-key", "12"),
            ("x-amz-req-ctx-id-source-ip", "13"),
            ("x-amz-req-ctx-id-cognito-authentication-type", "14"),
            ("x-amz-req-ctx-id-cognito-authentication-provider", "15"),
            ("x-amz-req-ctx-id-user-arn", "16"),
            ("x-amz-req-ctx-id-user-agent", "17"),
            ("x-amz-req-ctx-id-user", "18"),
            ("x-amz-req-ctx-resource-path", "19"),
            ("x-amz-req-ctx-auth-principalId", "\"me \\\"too\\\"\""),
            ("x-amz-req-ctx-auth-n", "5"),
            ("x-amz-req-ctx-auth-b", "true"),
            ("x-amz-req-ctx-auth-list", "[null,-1]"),
            ("x-amz-req-ctx-request-time", "20"),
            ("x-amz-req-ctx-apiid", "21"),
        ])
    );
}

#[test]
fn later_value_replaces_the_earlier_one() {
    let mut headers = ContextHeaders::new();
    headers.insert("a", "1".to_string());
    headers.insert("b", "2".to_string());
    headers.insert("a", "3".to_string());
    assert_eq!(entries(headers), map(&[("a", "3"), ("b", "2")]));
}

#[test]
fn headers_are_added_to_those_that_are_there() {
    let mut headers = ContextHeaders::new();
    headers.insert("a", "1".to_string());
    headers.insert("x-amz-req-ctx-id-user", "2".to_string());
    let identity = Identity { user: some("3"), caller: some("4"), ..no_identity() };
    add_identity_ctx_headers(&mut headers, identity);
    add_authorizer_headers(&mut headers, vec![("k".to_string(), "{}".to_string())]);
    assert_eq!(
        entries(headers),
        map(&[
            ("a", "1"),
            ("x-amz-req-ctx-id-user", "3"),
            ("x-amz-req-ctx-id-caller", "4"),
            ("x-amz-req-ctx-auth-k", "{}"),
        ])
    );
}

#[test]
fn order_of_the_authorizer_does_not_matter() {
    let first = ("a".to_string(), Value::from(1));
    let second = ("b".to_string(), Value::from("x"));
    let one = ProxyContext {
        stage: some("prod"),
        authorizer: vec![first.clone(), second.clone()],
        ..no_context()
    };
    let other =
        ProxyContext { stage: some("prod"), authorizer: vec![second, first], ..no_context() };
    let one = entries(map_request_context_to_headers(RequestContext::ApiGatewayV1(one)));
    let other = entries(map_request_context_to_headers(RequestContext::ApiGatewayV1(other)));
    assert_eq!(one, other);
    assert_eq!(one.len(), 3);
    for name in one.keys() {
        assert!(name.starts_with("x-amz-req-ctx-"), "{}", name);
    }
}

#[test]
fn order_of_the_authorizer_does_not_matter_beside_other_headers() {
    let first = ("a".to_string(), Value::from(1));
    let second = ("b".to_string(), Value::from(2));
    let expected = map(&[
        ("x-amz-req-ctx-auth-a", "1"),
        ("x-amz-req-ctx-auth-b", "2"),
        ("x-amz-req-ctx-stage", "there"),
    ]);
    for authorizer in [vec![first.clone(), second.clone()], vec![second, first]] {
        let mut headers = ContextHeaders::new();
        headers.insert("x-amz-req-ctx-auth-a", "old".to_string());
        headers.insert("x-amz-req-ctx-stage", "there".to_string());
        add_api_gw_v1_headers(ProxyContext { authorizer, ..no_context() }, &mut headers);
        assert_eq!(entries(headers), expected);
    }
}
