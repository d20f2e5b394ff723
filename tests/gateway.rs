use std::sync::atomic::{AtomicU64, Ordering};

use fullstack_server::context::{Method, RequestHead, ServerContext};
use fullstack_server::gateway::{check_render_request, GatewayError};
use fullstack_server::headers::HeaderList;
use fullstack_server::providers::{ContextFactory, ContextProvider, ContextProviders};
use fullstack_server::response::ResponseHead;
use fullstack_server::router::{
    begin_function_call, finish_function_call, finish_render, FunctionRoute, RouteError,
    RouteTable, RouteTarget,
};

fn b(s: &str) -> Vec<u8> {
    s.as_bytes().to_vec()
}

fn headers(pairs: &[(&str, &str)]) -> HeaderList {
    let mut h = HeaderList::new();
    for (n, v) in pairs {
        h.append(b(n), b(v));
    }
    h
}

fn request(method: Method, target: &str, pairs: &[(&str, &str)]) -> RequestHead {
    RequestHead {
        method,
        path: b(target),
        path_and_query: Some(b(target)),
        headers: headers(pairs),
    }
}

fn values_of(h: &HeaderList, name: &str) -> Vec<String> {
    h.entries
        .iter()
        .filter(|e| e.name.eq_ignore_ascii_case(name.as_bytes()))
        .map(|e| String::from_utf8(e.value.clone()).unwrap())
        .collect()
}

struct Counter {
    next: AtomicU64,
}

impl ContextFactory<u64> for Counter {
    fn produce(&self) -> u64 {
        self.next.fetch_add(1, Ordering::SeqCst)
    }
}

fn providers(kinds: &[u64]) -> ContextProviders<Counter> {
    let list = kinds
        .iter()
        .map(|k| ContextProvider { kind: *k, factory: Counter { next: AtomicU64::new(*k * 100) } })
        .collect();
    ContextProviders::new(list)
}

fn table() -> RouteTable {
    RouteTable::build(vec![
        FunctionRoute { path: b("/api/get_data"), method: Method::Post },
        FunctionRoute { path: b("/api/list"), method: Method::Get },
    ])
    .unwrap()
}

#[test]
fn render_rejects_json_accept_with_406_and_empty_body() {
    let req = request(Method::Get, "/", &[("Accept", "application/json")]);
    let err = check_render_request(&req).unwrap_err();
    assert!(matches!(err, GatewayError::NotAcceptable));
    let reply = err.into_reply();
    assert_eq!(reply.status, 406);
    assert!(reply.body.is_empty());
}

#[test]
fn render_accepts_html_in_any_case() {
    let req = request(Method::Get, "/blog?page=2", &[("accept", "TEXT/HTML,application/xhtml+xml")]);
    assert_eq!(check_render_request(&req).unwrap(), b("/blog?page=2"));
}

#[test]
fn render_without_accept_is_served() {
    let req = request(Method::Get, "/", &[]);
    assert_eq!(check_render_request(&req).unwrap(), b("/"));
}

#[test]
fn render_rejects_unreadable_accept() {
    let mut req = request(Method::Get, "/", &[]);
    req.headers.append(b("accept"), vec![b't', 0x80, b'x']);
    let err = check_render_request(&req).unwrap_err();
    assert_eq!(err.into_reply().status, 406);
}

#[test]
fn render_uses_first_accept_line() {
    let req = request(Method::Get, "/", &[("Accept", "image/png"), ("Accept", "text/html")]);
    assert!(matches!(check_render_request(&req), Err(GatewayError::NotAcceptable)));
}

#[test]
fn render_rejects_target_without_path_and_query() {
    let mut req = request(Method::Get, "/", &[("Accept", "text/html")]);
    req.path_and_query = None;
    let err = check_render_request(&req).unwrap_err();
    assert!(matches!(err, GatewayError::BadUri));
    let reply = err.into_reply();
    assert_eq!(reply.status, 400);
    assert!(reply.body.is_empty());
}

#[test]
fn render_failure_reply_carries_message() {
    let reply = GatewayError::RenderFailed(b("boom")).into_reply();
    assert_eq!(reply.status, 500);
    assert_eq!(reply.body, b("Error: boom"));
}

#[test]
fn unknown_function_path_gives_400_naming_the_path() {
    let req = request(Method::Get, "/no/such/fn", &[]);
    let r = begin_function_call::<u64, Counter>(&table(), &providers(&[]), b("/no/such/fn"), req);
    let reply = match r {
        Err(e) => e.into_reply(),
        Ok(_) => panic!("found a function"),
    };
    assert_eq!(reply.status, 400);
    let body = String::from_utf8(reply.body).unwrap();
    assert!(body.contains("/no/such/fn"));
    assert!(body.starts_with("No server function found for path: /no/such/fn\n"));
    assert!(body.contains("prefix"));
}

#[test]
fn each_call_gets_one_fresh_value_per_provider() {
    let p = providers(&[1, 2, 3]);
    let t = table();
    let first = begin_function_call::<u64, Counter>(&t, &p, b("/api/get_data"), request(Method::Post, "/api/get_data", &[])).ok().unwrap();
    let second = begin_function_call::<u64, Counter>(&t, &p, b("/api/get_data"), request(Method::Post, "/api/get_data", &[])).ok().unwrap();
    assert_eq!(first.handler, 0);
    assert_eq!(first.context.values.len(), 3);
    assert_eq!(second.context.values.len(), 3);
    assert_eq!(first.context.get_context_value(2), Some(&200));
    assert_eq!(second.context.get_context_value(2), Some(&201));
    assert_eq!(first.context.get_context_value(3), Some(&300));
    assert_eq!(first.context.get_context_value(9), None);
}

#[test]
fn empty_registry_injects_nothing() {
    let call = begin_function_call::<u64, Counter>(&table(), &providers(&[]), b("/api/list"), request(Method::Get, "/api/list", &[])).ok().unwrap();
    assert_eq!(call.handler, 1);
    assert!(call.context.values.is_empty());
}

#[test]
fn insert_context_value_keeps_last_value_of_a_kind() {
    let mut ctx: ServerContext<&str> = ServerContext::new(request(Method::Get, "/", &[]));
    ctx.insert_context_value(7, "a");
    ctx.insert_context_value(8, "b");
    ctx.insert_context_value(7, "c");
    assert_eq!(ctx.values.len(), 2);
    assert_eq!(ctx.get_context_value(7), Some(&"c"));
    assert_eq!(ctx.get_context_value(8), Some(&"b"));
}

#[test]
fn draining_twice_yields_nothing_the_second_time() {
    let mut ctx: ServerContext<u64> = ServerContext::new(request(Method::Get, "/", &[]));
    ctx.stage_header(b("set-cookie"), b("a=1"));
    ctx.stage_header(b("set-cookie"), b("b=2"));
    let first = ctx.drain_staged_headers();
    assert_eq!(first.len(), 2);
    let second = ctx.drain_staged_headers();
    assert_eq!(second.len(), 0);
    assert_eq!(ctx.staged_response().headers.len(), 0);
}

fn run_call(pairs: &[(&str, &str)], status: u16, response: &[(&str, &str)], staged: &[(&str, &str)]) -> ResponseHead {
    let req = request(Method::Post, "/api/get_data", pairs);
    let mut call = begin_function_call::<u64, Counter>(&table(), &providers(&[]), b("/api/get_data"), req).ok().unwrap();
    for (n, v) in staged {
        call.context.stage_header(b(n), b(v));
    }
    let head = ResponseHead { status, headers: headers(response) };
    finish_function_call(&call.hint, head, &mut call.context)
}

#[test]
fn form_post_redirects_to_referer() {
    let r = run_call(&[("Accept", "text/html"), ("Referer", "/form")], 200, &[], &[]);
    assert_eq!(r.status, 302);
    assert_eq!(values_of(&r.headers, "location"), vec!["/form".to_string()]);
}

#[test]
fn existing_location_is_left_alone() {
    let r = run_call(&[("Accept", "text/html"), ("Referer", "/form")], 303, &[("Location", "/done")], &[]);
    assert_eq!(r.status, 303);
    assert_eq!(values_of(&r.headers, "location"), vec!["/done".to_string()]);
}

#[test]
fn no_redirect_without_referer_or_html() {
    let r = run_call(&[("Accept", "text/html")], 200, &[], &[]);
    assert_eq!(r.status, 200);
    assert!(values_of(&r.headers, "location").is_empty());
    let r = run_call(&[("Accept", "application/json"), ("Referer", "/form")], 200, &[], &[]);
    assert_eq!(r.status, 200);
    assert!(values_of(&r.headers, "location").is_empty());
    let r = run_call(&[("Accept", "TEXT/HTML"), ("Referer", "/form")], 200, &[], &[]);
    assert_eq!(r.status, 200);
}

#[test]
fn staged_headers_reach_the_function_response() {
    let r = run_call(&[], 200, &[("set-cookie", "x=0"), ("content-type", "text/plain")], &[("set-cookie", "a=1"), ("set-cookie", "b=2")]);
    assert_eq!(values_of(&r.headers, "set-cookie"), vec!["x=0".to_string(), "a=1".to_string(), "b=2".to_string()]);
    assert_eq!(values_of(&r.headers, "content-type"), vec!["text/plain".to_string()]);
}

#[test]
fn staged_location_replaces_redirect_target() {
    let r = run_call(&[("Accept", "text/html"), ("Referer", "/form")], 200, &[], &[("location", "/elsewhere")]);
    assert_eq!(r.status, 302);
    assert_eq!(values_of(&r.headers, "location"), vec!["/elsewhere".to_string()]);
}

#[test]
fn staged_headers_and_status_reach_the_render_response() {
    let mut ctx: ServerContext<u64> = ServerContext::new(request(Method::Get, "/", &[]));
    ctx.stage_header(b("set-cookie"), b("session=1"));
    ctx.stage_status(201);
    let head = ResponseHead { status: 200, headers: headers(&[("content-type", "text/html")]) };
    let r = finish_render(head, &mut ctx);
    assert_eq!(r.status, 201);
    assert_eq!(values_of(&r.headers, "set-cookie"), vec!["session=1".to_string()]);
    assert_eq!(values_of(&r.headers, "content-type"), vec!["text/html".to_string()]);
    assert_eq!(ctx.staged_response().headers.len(), 0);
}

#[test]
fn route_table_refuses_other_methods() {
    let r = RouteTable::build(vec![
        FunctionRoute { path: b("/a"), method: Method::Get },
        FunctionRoute { path: b("/b"), method: Method::Delete },
        FunctionRoute { path: b("/c"), method: Method::Patch },
    ]);
    assert_eq!(r.err(), Some(RouteError::UnsupportedMethod(1)));
}

#[test]
fn function_routes_come_before_the_fallback() {
    let t = table();
    assert_eq!(t.len(), 2);
    assert_eq!(t.route(&b("/api/get_data"), Method::Post), RouteTarget::Function(0));
    assert_eq!(t.route(&b("/api/list"), Method::Get), RouteTarget::Function(1));
    assert_eq!(t.route(&b("/api/list"), Method::Post), RouteTarget::Render);
    assert_eq!(t.route(&b("/"), Method::Get), RouteTarget::Render);
    assert_eq!(t.find_function(&b("/api/list")), Some(1));
    assert_eq!(t.find_function(&b("/api/lis")), None);
}

#[test]
fn header_lookup_ignores_name_case() {
    let mut h = headers(&[("Content-Type", "a"), ("content-type", "b")]);
    assert_eq!(h.get(&b("CONTENT-TYPE")), Some(&b("a")));
    h.insert(b("content-type"), b("c"));
    assert_eq!(values_of(&h, "content-type"), vec!["c".to_string()]);
    assert!(h.contains_name(&b("Content-type")));
    h.remove_name(&b("CONTENT-type"));
    assert!(!h.contains_name(&b("content-type")));
}
