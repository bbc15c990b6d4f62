use wmproxy::cache::SessionCache;
use wmproxy::config::{HttpConfig, LocationConfig, RouteKey, ServerConfig};
use wmproxy::dispatch::{mark_server, plan, set_header, InnerHttpOper, Plan, Reply, Step};

fn key(rule: &str) -> RouteKey {
    RouteKey { rule: rule.to_string(), method: None, reverse_proxy: Some("b:80".to_string()) }
}

fn one_host() -> HttpConfig {
    let mut cfg = HttpConfig::new();
    let mut s = ServerConfig::new("a.com".to_string());
    s.location.push(LocationConfig::new("/".to_string(), None, Some("b:80".to_string())));
    cfg.server.push(s);
    cfg
}

#[test]
fn cache_checkout_removes_entry() {
    let mut c: SessionCache<u32> = SessionCache::new();
    c.checkin(key("/"), 1);
    c.checkin(key("/x"), 2);
    assert!(c.contains_key(&key("/")));
    assert_eq!(c.checkout(&key("/")), Some(1));
    assert!(!c.contains_key(&key("/")));
    assert_eq!(c.checkout(&key("/")), None);
    assert_eq!(c.len(), 1);
}

#[test]
fn cache_checkin_replaces() {
    let mut c: SessionCache<u32> = SessionCache::new();
    c.checkin(key("/"), 1);
    c.checkin(key("/"), 5);
    assert_eq!(c.len(), 1);
    assert_eq!(c.checkout(&key("/")), Some(5));
}

#[test]
fn sequential_requests_reuse_session() {
    let mut oper: InnerHttpOper<&str> = InnerHttpOper::new(one_host());
    let mut opened = 0;
    for _ in 0..2 {
        match oper.begin("a.com", "/x", "GET") {
            Step::Forward { key, cached, .. } => match plan(cached.is_some(), false) {
                Plan::Reuse => {
                    assert_eq!(cached, Some("session-1"));
                    assert_eq!(oper.finish_reused(key, cached.unwrap(), true), None);
                }
                Plan::Establish => {
                    opened += 1;
                    oper.store_new(key, "session-1");
                }
            },
            Step::Answer(r) => panic!("unexpected answer {:?}", r),
        }
    }
    assert_eq!(opened, 1);
}

#[test]
fn closed_session_is_replaced() {
    let mut oper: InnerHttpOper<&str> = InnerHttpOper::new(one_host());
    if let Step::Forward { key, .. } = oper.begin("a.com", "/", "GET") {
        oper.store_new(key, "old");
    }
    match oper.begin("a.com", "/", "GET") {
        Step::Forward { key, cached, .. } => {
            assert_eq!(cached, Some("old"));
            assert_eq!(plan(true, true), Plan::Establish);
            oper.store_new(key, "new");
        }
        Step::Answer(r) => panic!("unexpected answer {:?}", r),
    }
    match oper.begin("a.com", "/", "GET") {
        Step::Forward { cached, .. } => assert_eq!(cached, Some("new")),
        Step::Answer(r) => panic!("unexpected answer {:?}", r),
    }
}

#[test]
fn lost_backend_answers_503_and_keeps_entry() {
    let mut oper: InnerHttpOper<u8> = InnerHttpOper::new(one_host());
    let k = key("/");
    let reply = oper.finish_reused(k, 3, false);
    assert_eq!(reply, Some(Reply::LostConnection));
    assert_eq!(reply.unwrap().status(), 503);
    assert_eq!(reply.unwrap().body(), "already lose connection");
    assert_eq!(oper.cache_sender.len(), 1);
}

#[test]
fn no_host_answers_unknown_location() {
    let mut oper: InnerHttpOper<u8> = InnerHttpOper::new(HttpConfig::new());
    match oper.begin("nowhere.com", "/", "GET") {
        Step::Answer(r) => {
            assert_eq!(r, Reply::UnknownLocation);
            assert_eq!(r.status(), 503);
            assert_eq!(r.body(), "unknown location");
        }
        Step::Forward { .. } => panic!("no host is configured"),
    }
}

#[test]
fn no_location_answers_unknown_location_to_deal() {
    let mut cfg = HttpConfig::new();
    let mut s = ServerConfig::new("a.com".to_string());
    s.location.push(LocationConfig::new("/static".to_string(), None, None));
    cfg.server.push(s);
    let mut oper: InnerHttpOper<u8> = InnerHttpOper::new(cfg);
    match oper.begin("a.com", "/x", "GET") {
        Step::Answer(r) => {
            assert_eq!(r, Reply::UnknownLocationToDeal);
            assert_eq!(r.body(), "unknown location to deal");
        }
        Step::Forward { .. } => panic!("no location matches"),
    }
}

#[test]
fn plan_table() {
    assert_eq!(plan(true, false), Plan::Reuse);
    assert_eq!(plan(true, true), Plan::Establish);
    assert_eq!(plan(false, false), Plan::Establish);
    assert_eq!(plan(false, true), Plan::Establish);
}

#[test]
fn server_header_is_set_once() {
    let mut headers = vec![
        ("content-type".to_string(), "text/plain".to_string()),
        ("server".to_string(), "backend".to_string()),
    ];
    mark_server(&mut headers);
    mark_server(&mut headers);
    let servers: Vec<&(String, String)> = headers.iter().filter(|h| h.0 == "server").collect();
    assert_eq!(servers.len(), 1);
    assert_eq!(servers[0].1, "wmproxy");
    assert_eq!(headers.len(), 2);
    assert_eq!(headers[0].0, "content-type");
}

#[test]
fn set_header_replaces_all_of_a_name() {
    let mut headers = vec![
        ("a".to_string(), "1".to_string()),
        ("b".to_string(), "2".to_string()),
        ("a".to_string(), "3".to_string()),
    ];
    set_header(&mut headers, "a".to_string(), "9".to_string());
    assert_eq!(headers, vec![("b".to_string(), "2".to_string()), ("a".to_string(), "9".to_string())]);
}
