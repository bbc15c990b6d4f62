use wmproxy::bootstrap::{listen_plan, single_key, KeyCount};
use wmproxy::config::{HttpConfig, LocationConfig, Route, ServerConfig, UpstreamConfig};

fn location(rule: &str, method: Option<&str>, target: &str) -> LocationConfig {
    LocationConfig::new(
        rule.to_string(),
        method.map(|m| m.to_string()),
        Some(target.to_string()),
    )
}

fn host(name: &str, locations: Vec<LocationConfig>) -> ServerConfig {
    let mut s = ServerConfig::new(name.to_string());
    s.location = locations;
    s
}

fn three_hosts() -> HttpConfig {
    let mut cfg = HttpConfig::new();
    cfg.server.push(host("a.com", vec![location("/", None, "a:80")]));
    cfg.server.push(host("b.com", vec![location("/", None, "b:80")]));
    cfg.server.push(host(
        "*",
        vec![location("/api", Some("POST"), "api:80"), location("/", None, "all:80")],
    ));
    cfg
}

#[test]
fn unmatched_host_goes_to_last_host() {
    let cfg = three_hosts();
    assert_eq!(
        cfg.resolve("c.com", "/index", "GET"),
        Route::Location { server: 2, location: 1 }
    );
    assert_eq!(
        cfg.resolve("c.com", "/api/x", "POST"),
        Route::Location { server: 2, location: 0 }
    );
}

#[test]
fn named_host_is_picked() {
    let cfg = three_hosts();
    assert_eq!(cfg.resolve("b.com", "/x", "GET"), Route::Location { server: 1, location: 0 });
}

#[test]
fn empty_host_takes_first_host() {
    let cfg = three_hosts();
    assert_eq!(cfg.resolve("", "/x", "GET"), Route::Location { server: 0, location: 0 });
}

#[test]
fn no_location_of_picked_host() {
    let mut cfg = HttpConfig::new();
    cfg.server.push(host("a.com", vec![location("/static", None, "a:80")]));
    cfg.server.push(host("b.com", vec![location("/", None, "b:80")]));
    assert_eq!(cfg.resolve("a.com", "/other", "GET"), Route::UnknownLocation { server: 0 });
}

#[test]
fn no_host_configured() {
    let cfg = HttpConfig::new();
    assert_eq!(cfg.resolve("x.com", "/", "GET"), Route::UnknownHost);
}

#[test]
fn rule_matches_prefix_and_method() {
    let l = location("/api", Some("POST"), "api:80");
    assert!(l.is_match_rule("/api/v1", "POST"));
    assert!(l.is_match_rule("/api", "POST"));
    assert!(!l.is_match_rule("/api/v1", "GET"));
    assert!(!l.is_match_rule("/ap", "POST"));
    assert!(!l.is_match_rule("/other", "POST"));
    let any = location("/", None, "x");
    assert!(any.is_match_rule("/anything", "DELETE"));
}

#[test]
fn route_key_ignores_upstreams() {
    let mut a = location("/", None, "b:80");
    let b = location("/", None, "b:80");
    a.upstream.push(UpstreamConfig::new("u".to_string(), vec!["1.2.3.4:80".to_string()]));
    assert!(a.clone_only_hash().same(&b.clone_only_hash()));
    let c = location("/", Some("GET"), "b:80");
    assert!(!a.clone_only_hash().same(&c.clone_only_hash()));
}

#[test]
fn copy_to_child_hands_upstreams_down() {
    let mut cfg = HttpConfig::new();
    cfg.upstream.push(UpstreamConfig::new("shared".to_string(), vec!["10.0.0.1:80".to_string()]));
    let mut s = host("a.com", vec![location("/", None, "shared")]);
    s.upstream.push(UpstreamConfig::new("own".to_string(), vec![]));
    cfg.server.push(s);
    cfg.copy_to_child();
    assert_eq!(cfg.upstream.len(), 1);
    let s = &cfg.server[0];
    let names: Vec<&str> = s.upstream.iter().map(|u| u.name.as_str()).collect();
    assert_eq!(names, vec!["own", "shared"]);
    let loc_names: Vec<&str> = s.location[0].upstream.iter().map(|u| u.name.as_str()).collect();
    assert_eq!(loc_names, vec!["own", "shared"]);
    assert_eq!(s.location[0].upstream[1].server, vec!["10.0.0.1:80".to_string()]);
    assert_eq!(s.location[0].rule, "/");
}

#[test]
fn one_listener_per_port() {
    assert_eq!(listen_plan(&vec![80, 443, 80, 8080, 443]), vec![0, 1, 3]);
    assert_eq!(listen_plan(&vec![]), Vec::<usize>::new());
}

#[test]
fn exactly_one_key_is_accepted() {
    assert_eq!(single_key(Vec::<u8>::new()), Err(KeyCount::NoKey));
    assert_eq!(single_key(vec![7u8]), Ok(7));
    assert_eq!(single_key(vec![1u8, 2]), Err(KeyCount::ManyKeys));
}
