use std::collections::HashMap;
use std::sync::Arc;

use lamedh_http::StrMap;
use rocket::catcher::Catcher;
use rocket::data::{Data, ToByteUnit};
use rocket::http::{Header, Status};
use rocket::local::blocking::Client;
use rocket::response::Responder;
use rocket::route::{Outcome, Route};
use rocket::{Build, Request, Rocket};

use rocket_lamb::body::Body;
use rocket_lamb::config::{BasePathBehaviour, Config, ResponseType};
use rocket_lamb::context::{AlbContext, RequestContext};
use rocket_lamb::handler::{
    get_client_from_lazy, set_client, try_get_client_from_lazy, ClientFault, ClientStep,
    LazyClient, RocketHandler,
};
use rocket_lamb::request::{create_rocket_request, LambdaRequest, Method};
use rocket_lamb::response::{create_lambda_response, LambdaResponse};

fn not_found<'r>(status: Status, req: &'r Request<'_>) -> rocket::catcher::BoxFuture<'r> {
    Box::pin(async move { (status, ()).respond_to(req) })
}

fn upper<'r>(req: &'r Request<'_>, data: Data<'r>) -> rocket::route::BoxFuture<'r> {
    Box::pin(async move {
        let path: String = req.routed_segments(0..).last().map(|segment| segment.to_string()).unwrap();
        let query: String = req.query_value("query").unwrap().unwrap();
        let body = data.open(1.kibibytes()).into_string().await.unwrap().into_inner();
        let text = format!(
            "{}, {}, {}",
            path.to_uppercase(),
            query.to_uppercase(),
            body.to_uppercase()
        );
        Outcome::from(req, text)
    })
}

fn binary<'r>(req: &'r Request<'_>, _: Data<'r>) -> rocket::route::BoxFuture<'r> {
    let bytes: &'static [u8] = &[200, 201, 202];
    Outcome::from(req, bytes).pin()
}

fn make_rocket() -> Rocket<Build> {
    rocket::custom(rocket::Config {
        log_level: rocket::config::LogLevel::Off,
        ..rocket::Config::debug_default()
    })
    .mount(
        "/",
        vec![
            Route::new(rocket::http::Method::Post, "/upper/<path>?<query>", upper),
            Route::new(rocket::http::Method::Get, "/binary", binary),
        ],
    )
    .register("/", vec![Catcher::new(404, not_found)])
}

fn get_request(method: &str, path: &str, query: &[(&str, &str)], body: Body) -> LambdaRequest {
    let mut params: HashMap<String, Vec<String>> = HashMap::new();
    for (key, value) in query {
        params.entry(key.to_string()).or_default().push(value.to_string());
    }
    LambdaRequest {
        method: method.to_string(),
        full_path: path.to_string(),
        api_path: path.to_string(),
        query: StrMap::from(params),
        headers: http::HeaderMap::new(),
        context: RequestContext::Alb(AlbContext { target_group_arn: None }),
        body,
    }
}

fn upper_request(path: &str) -> LambdaRequest {
    get_request("POST", path, &[("query", "two")], Body::Text("three".to_string()))
}

fn method(method: Method) -> rocket::http::Method {
    match method {
        Method::Get => rocket::http::Method::Get,
        Method::Post => rocket::http::Method::Post,
        other => panic!("unexpected method {:?}", other),
    }
}

fn launch(step: ClientStep<Rocket<Build>, Client>) -> Client {
    let rocket = match step {
        ClientStep::Launch(rocket) => rocket,
        ClientStep::Remount(rocket, base) => {
            let routes: Vec<Route> = rocket.routes().cloned().collect();
            rocket.mount(base, routes)
        }
        ClientStep::Use(_) => panic!("the client is there already"),
    };
    Client::untracked(rocket).unwrap()
}

fn call(config: &Config, base_path: &str, req: LambdaRequest) -> LambdaResponse {
    let mut lazy: LazyClient<Rocket<Build>, Client> =
        LazyClient::Uninitialized(Some(make_rocket()));
    let step = try_get_client_from_lazy(&mut lazy, config, base_path).unwrap();
    let client = set_client(&mut lazy, launch(step));
    let request = create_rocket_request(config, req).unwrap();
    let mut local_req = client.req(method(request.method), request.uri);
    for (name, value) in request.headers {
        local_req.add_header(Header::new(name, value));
    }
    match request.body {
        Body::Empty => {}
        Body::Text(text) => local_req.set_body(text),
        Body::Binary(bytes) => local_req.set_body(bytes),
    }
    let local_res = local_req.dispatch();
    let status = local_res.status().code;
    let mut headers = rocket::http::HeaderMap::new();
    for header in local_res.headers().iter() {
        headers.add(Header::new(header.name.to_string(), header.value.to_string()));
    }
    create_lambda_response(config, status, &headers, local_res.into_bytes()).unwrap()
}

fn assert_header(res: &LambdaResponse, name: &str, value: &str) {
    let values = res.headers.get_all(name).iter().collect::<Vec<_>>();
    assert_eq!(values.len(), 1, "Header {} should have 1 value", name);
    assert_eq!(values[0], value);
}

fn config() -> Config {
    Config::new(BasePathBehaviour::RemountAndInclude)
}

#[test]
fn ok_auto_text() {
    let res = call(&config(), "", upper_request("/upper/one"));
    assert_eq!(res.status, 200);
    assert_header(&res, "content-type", "text/plain; charset=utf-8");
    assert_eq!(res.body, Body::Text("ONE, TWO, THREE".to_string()));
}

#[test]
fn ok_auto_binary() {
    let res = call(&config(), "", get_request("GET", "/binary", &[], Body::Empty));
    assert_eq!(res.status, 200);
    assert_header(&res, "content-type", "application/octet-stream");
    assert_eq!(res.body, Body::Binary(vec![200, 201, 202]));
}

#[test]
fn ok_default_binary() {
    let config = config().default_response_type(ResponseType::Binary);
    let res = call(&config, "", upper_request("/upper/one"));
    assert_eq!(res.status, 200);
    assert_header(&res, "content-type", "text/plain; charset=utf-8");
    assert_eq!(res.body, Body::Binary("ONE, TWO, THREE".to_owned().into_bytes()));
}

#[test]
fn ok_type_binary() {
    let config = config().response_type("TEXT/PLAIN", ResponseType::Binary);
    let res = call(&config, "", upper_request("/upper/one"));
    assert_eq!(res.status, 200);
    assert_header(&res, "content-type", "text/plain; charset=utf-8");
    assert_eq!(res.body, Body::Binary("ONE, TWO, THREE".to_owned().into_bytes()));
}

#[test]
fn request_not_found() {
    let res = call(&config(), "", get_request("GET", "/not_found", &[], Body::Empty));
    assert_eq!(res.status, 404);
    assert_eq!(res.headers.contains_key("content-type"), false);
    let is_empty = match &res.body {
        Body::Empty => true,
        Body::Text(text) => text.is_empty(),
        Body::Binary(bytes) => bytes.is_empty(),
    };
    assert!(is_empty, "Response body should be empty");
}

#[test]
fn remounted_routes_answer_under_the_base_path() {
    let res = call(&config(), "/stage", upper_request("/stage/upper/one"));
    assert_eq!(res.status, 200);
    assert_eq!(res.body, Body::Text("ONE, TWO, THREE".to_string()));
}

#[test]
fn routes_are_not_remounted_when_the_base_path_is_only_included() {
    let config = Config::new(BasePathBehaviour::Include);
    let res = call(&config, "/stage", upper_request("/stage/upper/one"));
    assert_eq!(res.status, 404);
}

#[test]
fn one_client_answers_all_requests() {
    let config = config();
    let mut lazy: LazyClient<u32, u32> = LazyClient::Uninitialized(Some(7));
    match try_get_client_from_lazy(&mut lazy, &config, "") {
        Ok(ClientStep::Launch(rocket)) => assert_eq!(rocket, 7),
        _ => panic!("the instance should be launched"),
    }
    let client = set_client(&mut lazy, 8);
    assert_eq!(*client, 8);
    for base_path in ["", "/stage", "not a path"] {
        match try_get_client_from_lazy(&mut lazy, &config, base_path) {
            Ok(ClientStep::Use(same)) => assert!(Arc::ptr_eq(&same, &client)),
            _ => panic!("the client should be used"),
        }
    }
}

#[test]
fn instance_is_taken_once() {
    let config = config();
    let mut lazy: LazyClient<u32, u32> = LazyClient::Uninitialized(Some(7));
    match try_get_client_from_lazy(&mut lazy, &config, "/prod/v1") {
        Ok(ClientStep::Remount(rocket, base)) => {
            assert_eq!(rocket, 7);
            assert_eq!(base, "/prod/v1");
        }
        _ => panic!("the routes should be remounted"),
    }
    match try_get_client_from_lazy(&mut lazy, &config, "/prod/v1") {
        Err(fault) => assert_eq!(fault, ClientFault::Taken),
        _ => panic!("the instance should be gone"),
    }
}

#[test]
fn base_path_has_to_be_a_path() {
    let config = config();
    for (base_path, valid) in [
        ("/", true),
        ("/a/b", true),
        ("/a%20b", true),
        ("/a?b=c", true),
        ("/a?{b}|?", true),
        ("/a[]:@!$&'()*+,;=-._~", true),
        ("a", false),
        ("?a", false),
        ("/a b", false),
        ("/{a}", false),
        ("/a#b", false),
        ("/a?b#c", false),
        ("/\u{e9}", false),
    ] {
        let mut lazy: LazyClient<u32, u32> = LazyClient::Uninitialized(Some(7));
        match try_get_client_from_lazy(&mut lazy, &config, base_path) {
            Ok(ClientStep::Remount(_, _)) => assert!(valid, "{}", base_path),
            Err(fault) => {
                assert_eq!(fault, ClientFault::InvalidBasePath);
                assert!(!valid, "{}", base_path);
            }
            _ => panic!("the routes should be remounted at {}", base_path),
        }
    }
}

#[test]
fn excluded_base_path_is_not_looked_at() {
    let config = Config::new(BasePathBehaviour::Exclude);
    let mut lazy: LazyClient<u32, u32> = LazyClient::Uninitialized(Some(7));
    match try_get_client_from_lazy(&mut lazy, &config, "not a path") {
        Ok(ClientStep::Launch(rocket)) => assert_eq!(rocket, 7),
        _ => panic!("the instance should be launched"),
    }
}

#[test]
fn handles_are_shared() {
    let handler: RocketHandler<u32> = RocketHandler::new(5, config());
    let (client, shared) = handler.handles();
    assert!(Arc::ptr_eq(&client, &handler.lazy_client));
    assert!(Arc::ptr_eq(&shared, &handler.config));
    assert_eq!(*client, 5);
}

#[test]
fn step_is_found_where_there_is_no_fault() {
    let config = config();
    let mut lazy: LazyClient<u32, u32> = LazyClient::Uninitialized(Some(7));
    match get_client_from_lazy(&mut lazy, &config, "/prod") {
        ClientStep::Remount(rocket, base) => {
            assert_eq!(rocket, 7);
            assert_eq!(base, "/prod");
        }
        _ => panic!("the routes should be remounted"),
    }
    let client = set_client(&mut lazy, 8);
    match get_client_from_lazy(&mut lazy, &config, "/prod") {
        ClientStep::Use(same) => assert!(Arc::ptr_eq(&same, &client)),
        _ => panic!("the client should be used"),
    }
}

#[test]
fn instance_is_taken_for_an_invalid_base_path_too() {
    let config = config();
    let mut lazy: LazyClient<u32, u32> = LazyClient::Uninitialized(Some(7));
    let first = try_get_client_from_lazy(&mut lazy, &config, "not a path").err();
    assert_eq!(first, Some(ClientFault::InvalidBasePath));
    let second = try_get_client_from_lazy(&mut lazy, &config, "/prod").err();
    assert_eq!(second, Some(ClientFault::Taken));
}
