use api_gateway::balancer::RoundRobinLoadBalancer;
use api_gateway::routes::{
    backends_within_limits, dispatch_upstream, fits_url_part, forward_path, gateway_backends,
    upstream_url, Action, CacheLookup, Event, Fault, Phase, Reply, Route, StoreOutcome, UsersFlow,
    REQWEST_PREFIX, URL_PART_LIMIT,
};

fn balancer() -> RoundRobinLoadBalancer {
    RoundRobinLoadBalancer::new(vec![
        "http://localhost:10001".to_string(),
        "http://localhost:10002".to_string(),
    ])
}

#[test]
fn forward_path_drops_prefix() {
    assert_eq!(REQWEST_PREFIX, "/using-reqwest");
    assert_eq!(forward_path("/using-reqwest/api/v1/users"), "/api/v1/users");
    assert_eq!(forward_path("/using-reqwest"), "");
    assert_eq!(forward_path("/api/v1/users"), "/api/v1/users");
    assert_eq!(forward_path("/using-reqwes"), "/using-reqwes");
    assert_eq!(forward_path("/using-reqwestx"), "x");
    assert_eq!(forward_path("/api/using-reqwest"), "/api/using-reqwest");
    assert_eq!(forward_path(""), "");
}

#[test]
fn upstream_url_replaces_path_and_query() {
    assert_eq!(
        upstream_url("http://localhost:10001", "/api/v1/users", None).as_deref(),
        Some("http://localhost:10001/api/v1/users")
    );
    assert_eq!(
        upstream_url("http://localhost:10001/old?x=1", "/using-reqwest/api/v1/users", Some("page=2"))
            .as_deref(),
        Some("http://localhost:10001/api/v1/users?page=2")
    );
    assert_eq!(
        upstream_url("http://localhost:10002/base", "/a b", None).as_deref(),
        Some("http://localhost:10002/a%20b")
    );
}

#[test]
fn upstream_url_without_base_url_is_none() {
    assert_eq!(upstream_url("not a url", "/api/v1/users", None), None);
    assert_eq!(upstream_url("", "/x", None), None);
}

#[test]
fn dispatch_without_url_aborts() {
    let (phase, action) = dispatch_upstream(&Route::Direct, None, true);
    assert_eq!(phase, Phase::Finished);
    assert_eq!(action, Action::Abort(Fault::BadBackendUrl));
}

#[test]
fn dispatch_without_credentials() {
    let url = "http://b/x".to_string();
    let (phase, action) = dispatch_upstream(&Route::Direct, Some(url.clone()), false);
    assert_eq!(phase, Phase::Finished);
    assert_eq!(
        action,
        Action::Respond(Reply::Unauthorized("Authorization header is missing".to_string()))
    );
    let (phase, action) = dispatch_upstream(&Route::CacheFirst, Some(url.clone()), true);
    assert_eq!(phase, Phase::AwaitForward);
    assert_eq!(action, Action::Forward(url));
}

#[test]
fn cache_hit_is_served_verbatim() {
    let mut lb = balancer();
    let (mut flow, action) =
        UsersFlow::start(Route::CacheFirst, "/api/v1/users".to_string(), None, true, &mut lb);
    assert_eq!(action, Action::ReadCache);
    let cached = "[{\"user_id\":\"1\"}]".to_string();
    let action = flow.step(Event::CacheRead(CacheLookup::Found(cached.clone())), &mut lb);
    assert_eq!(action, Action::Respond(Reply::JsonText(cached)));
    assert!(flow.is_finished());
    // the backend was not asked: the first turn is still the first backend
    assert_eq!(lb.get_next_url(), "http://localhost:10001");
}

#[test]
fn cache_miss_goes_upstream_and_fills_cache() {
    let mut lb = balancer();
    let (mut flow, _) = UsersFlow::start(
        Route::CacheFirst,
        "/using-reqwest/api/v1/users".to_string(),
        Some("q=1".to_string()),
        true,
        &mut lb,
    );
    let action = flow.step(Event::CacheRead(CacheLookup::Missing), &mut lb);
    assert_eq!(
        action,
        Action::Forward("http://localhost:10001/api/v1/users?q=1".to_string())
    );
    let action = flow.step(Event::Forwarded(Ok(())), &mut lb);
    assert_eq!(action, Action::ReadBody);
    let body = b"[ {\"user_id\": \"1\"} ]".to_vec();
    let action = flow.step(Event::BodyRead(Ok(body.clone())), &mut lb);
    assert_eq!(action, Action::Reencode(body.clone()));
    let json = "[{\"user_id\":\"1\"}]".to_string();
    let action = flow.step(Event::Reencoded(Ok(json.clone())), &mut lb);
    assert_eq!(action, Action::StoreCache(json));
    assert!(!flow.is_finished());
    let action = flow.step(Event::CacheStored(StoreOutcome::Stored), &mut lb);
    assert_eq!(action, Action::Respond(Reply::JsonBytes(body)));
    assert!(flow.is_finished());
    assert_eq!(lb.get_next_url(), "http://localhost:10002");
}

#[test]
fn cache_unavailable_then_store_unavailable_still_answers() {
    let mut lb = balancer();
    let (mut flow, _) =
        UsersFlow::start(Route::CacheFirst, "/api/v1/users".to_string(), None, true, &mut lb);
    let action = flow.step(Event::CacheRead(CacheLookup::Unavailable), &mut lb);
    assert!(matches!(action, Action::Forward(_)));
    flow.step(Event::Forwarded(Ok(())), &mut lb);
    let body = b"[]".to_vec();
    flow.step(Event::BodyRead(Ok(body.clone())), &mut lb);
    flow.step(Event::Reencoded(Ok("[]".to_string())), &mut lb);
    let action = flow.step(Event::CacheStored(StoreOutcome::Unavailable), &mut lb);
    assert_eq!(action, Action::Respond(Reply::JsonBytes(body)));
}

#[test]
fn cache_read_failure_falls_back_to_backend() {
    let mut lb = balancer();
    let (mut flow, _) =
        UsersFlow::start(Route::CacheFirst, "/api/v1/users".to_string(), None, true, &mut lb);
    let action = flow.step(Event::CacheRead(CacheLookup::Failed), &mut lb);
    assert_eq!(action, Action::Forward("http://localhost:10001/api/v1/users".to_string()));
}

#[test]
fn cache_write_failure_is_a_server_error() {
    let mut lb = balancer();
    let (mut flow, _) =
        UsersFlow::start(Route::CacheFirst, "/api/v1/users".to_string(), None, true, &mut lb);
    flow.step(Event::CacheRead(CacheLookup::Missing), &mut lb);
    flow.step(Event::Forwarded(Ok(())), &mut lb);
    flow.step(Event::BodyRead(Ok(b"[]".to_vec())), &mut lb);
    flow.step(Event::Reencoded(Ok("[]".to_string())), &mut lb);
    let action = flow.step(Event::CacheStored(StoreOutcome::Failed), &mut lb);
    assert_eq!(
        action,
        Action::Respond(Reply::ServerError("Internal Server Error".to_string()))
    );
}

#[test]
fn direct_route_answers_reencoded_json() {
    let mut lb = balancer();
    let (mut flow, action) =
        UsersFlow::start(Route::Direct, "/api/v1/userstwo".to_string(), None, true, &mut lb);
    assert_eq!(
        action,
        Action::Forward("http://localhost:10001/api/v1/userstwo".to_string())
    );
    flow.step(Event::Forwarded(Ok(())), &mut lb);
    flow.step(Event::BodyRead(Ok(b"[ ]".to_vec())), &mut lb);
    let action = flow.step(Event::Reencoded(Ok("[]".to_string())), &mut lb);
    assert_eq!(action, Action::Respond(Reply::JsonText("[]".to_string())));
    assert!(flow.is_finished());
}

#[test]
fn direct_route_without_credentials_is_unauthorized() {
    let mut lb = balancer();
    let (flow, action) =
        UsersFlow::start(Route::Direct, "/api/v1/userstwo".to_string(), None, false, &mut lb);
    assert_eq!(
        action,
        Action::Respond(Reply::Unauthorized("Authorization header is missing".to_string()))
    );
    assert!(flow.is_finished());
    // the balancer still gave its turn away
    assert_eq!(lb.get_next_url(), "http://localhost:10002");
}

#[test]
fn backend_errors_are_server_errors() {
    let mut lb = balancer();
    let (mut flow, _) =
        UsersFlow::start(Route::Direct, "/api/v1/userstwo".to_string(), None, true, &mut lb);
    let action = flow.step(Event::Forwarded(Err("connection refused".to_string())), &mut lb);
    assert_eq!(action, Action::Respond(Reply::ServerError("connection refused".to_string())));

    let (mut flow, _) =
        UsersFlow::start(Route::Direct, "/api/v1/userstwo".to_string(), None, true, &mut lb);
    flow.step(Event::Forwarded(Ok(())), &mut lb);
    let action = flow.step(Event::BodyRead(Err("body cut".to_string())), &mut lb);
    assert_eq!(action, Action::Respond(Reply::ServerError("body cut".to_string())));

    let (mut flow, _) =
        UsersFlow::start(Route::Direct, "/api/v1/userstwo".to_string(), None, true, &mut lb);
    flow.step(Event::Forwarded(Ok(())), &mut lb);
    flow.step(Event::BodyRead(Ok(b"{".to_vec())), &mut lb);
    let action = flow.step(Event::Reencoded(Err("EOF while parsing".to_string())), &mut lb);
    assert_eq!(action, Action::Respond(Reply::ServerError("EOF while parsing".to_string())));
}

#[test]
fn bad_backend_url_aborts() {
    let mut lb = RoundRobinLoadBalancer::new(vec!["::not a url::".to_string()]);
    let (flow, action) =
        UsersFlow::start(Route::Direct, "/api/v1/userstwo".to_string(), None, true, &mut lb);
    assert_eq!(action, Action::Abort(Fault::BadBackendUrl));
    assert!(flow.is_finished());
}

#[test]
fn gateway_backends_are_the_two_local_services() {
    assert_eq!(
        gateway_backends(),
        vec!["http://localhost:10001".to_string(), "http://localhost:10002".to_string()]
    );
    let lb = RoundRobinLoadBalancer::new(gateway_backends());
    assert_eq!(lb.url_at(1), "http://localhost:10002");
    assert!(backends_within_limits(&lb));
}

#[test]
fn empty_balancer_cannot_serve_flows() {
    let lb = RoundRobinLoadBalancer::new(Vec::new());
    assert_eq!(lb.len(), 0);
    assert!(!backends_within_limits(&lb));
}

#[test]
fn url_part_limit() {
    assert!(fits_url_part("/api/v1/users"));
    assert!(fits_url_part(""));
    let long = "a".repeat(URL_PART_LIMIT + 1);
    assert!(!fits_url_part(&long));
    assert!(fits_url_part(&long[1..]));
}

#[test]
fn cache_hit_answers_whatever_the_request() {
    let mut empty = RoundRobinLoadBalancer::new(Vec::new());
    let cached = "[]".to_string();
    for (path, query, authorized) in [
        ("/api/v1/users".to_string(), None, true),
        ("x".repeat(URL_PART_LIMIT + 5), Some("a=b".to_string()), false),
    ] {
        let (mut flow, action) =
            UsersFlow::start(Route::CacheFirst, path, query, authorized, &mut empty);
        assert_eq!(action, Action::ReadCache);
        let action = flow.step(Event::CacheRead(CacheLookup::Found(cached.clone())), &mut empty);
        assert_eq!(action, Action::Respond(Reply::JsonText(cached.clone())));
    }
}
