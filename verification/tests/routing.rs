use portless::routing::hostname::{sanitize_label, validate, Host, MAX_LABEL_LEN};
use portless::routing::match_::{Route, Router};
use portless::routing::tld::Tld;

#[test]
fn valid_hostnames() {
    assert!(Host::new("myapp").is_ok());
    assert!(Host::new("my-app").is_ok());
    assert!(Host::new("api.myapp.localhost").is_ok());
    assert!(Host::new("a.b.c.d.e.f.g").is_ok());
    assert!(Host::new("123").is_ok());
}

#[test]
fn invalid_hostnames() {
    assert!(Host::new("").is_err());
    assert!(Host::new("-foo").is_err());
    assert!(Host::new("foo-").is_err());
    assert!(Host::new("foo..bar").is_err());
    assert!(Host::new("foo_bar").is_err());
    assert!(Host::new("héllo").is_err());
    assert!(Host::new("a".repeat(64)).is_err());
}

#[test]
fn hostname_length_limits() {
    assert!(Host::new("a".repeat(63)).is_ok());
    let long = vec!["a".repeat(60); 5].join(".");
    assert!(validate(&long).is_err());
}

#[test]
fn parent_and_leftmost() {
    let h = Host::new("api.myapp.localhost").unwrap();
    assert_eq!(h.leftmost_label(), Some("api"));
    let p = h.parent().unwrap();
    assert_eq!(p.as_str(), "myapp.localhost");
    assert_eq!(p.leftmost_label(), Some("myapp"));
    assert_eq!(p.parent().unwrap().as_str(), "localhost");
    assert!(p.parent().unwrap().parent().is_none());
}

#[test]
fn labels_and_count() {
    let h = Host::new("api.myapp.localhost").unwrap();
    assert_eq!(h.label_count(), 3);
    assert_eq!(h.labels(), vec!["api", "myapp", "localhost"]);
    assert!(h.is_ascii());
}

#[test]
fn subdomain_of() {
    let h = Host::new("tenant1.myapp.localhost").unwrap();
    let p = Host::new("myapp.localhost").unwrap();
    assert_eq!(h.subdomain_of(&p), Some("tenant1".into()));
    assert_eq!(p.subdomain_of(&h), None);
}

#[test]
fn starts_with_subdomain() {
    let h = Host::new("api.myapp.localhost").unwrap();
    let p = Host::new("myapp.localhost").unwrap();
    assert!(h.starts_with_subdomain(&p));
    let p2 = Host::new("api.myapp.localhost").unwrap();
    assert!(!h.starts_with_subdomain(&p2));
}

#[test]
fn sanitize_label_basic() {
    assert_eq!(sanitize_label("my app!"), "my-app");
    assert_eq!(sanitize_label("feature/Login API"), "feature-login-api");
    assert_eq!(sanitize_label("___"), "app");
}

#[test]
fn sanitize_label_truncates() {
    let long = "a".repeat(100);
    let s = sanitize_label(&long);
    assert!(s.len() <= MAX_LABEL_LEN);
}

#[test]
fn sanitized_labels_are_valid_hosts() {
    for raw in ["My App", "feature/x", "--a--", "ÄÖÜ", "a".repeat(80).as_str()] {
        let s = sanitize_label(raw);
        assert!(Host::new(s.as_str()).is_ok(), "{raw:?} gave {s:?}");
    }
}

#[test]
fn valid_tlds() {
    assert!(Tld::new("localhost").is_ok());
    assert!(Tld::new("test").is_ok());
    assert!(Tld::new("internal").is_ok());
    assert!(Tld::new("devbox").is_ok());
}

#[test]
fn invalid_tlds() {
    assert!(Tld::new("a").is_err());
    assert!(Tld::new("123").is_err());
    assert!(Tld::new(".local").is_err());
    assert!(Tld::new("co.uk").is_err());
    assert!(Tld::new("").is_err());
    assert!(Tld::new("a".repeat(64)).is_err());
}

#[test]
fn reserved() {
    assert!(Tld::new("localhost").unwrap().is_reserved());
    assert!(Tld::new("test").unwrap().is_reserved());
    assert!(Tld::new("local").unwrap().is_reserved());
    assert!(!Tld::new("devbox").unwrap().is_reserved());
}

#[test]
fn warnings() {
    assert!(Tld::new("local").unwrap().warning().is_some());
    assert!(Tld::new("dev").unwrap().warning().is_some());
    assert!(Tld::new("test").unwrap().warning().is_none());
    assert!(Tld::new("localhost").unwrap().warning().is_none());
}

#[test]
fn exact_match() {
    let mut r = Router::new();
    r.insert(Route::new("myapp.localhost", 3000, 1234, None, vec![]));
    let h = Host::new("myapp.localhost").unwrap();
    let m = r.resolve(&h).unwrap();
    assert!(m.exact);
    assert_eq!(m.port(), 3000);
}

#[test]
fn no_wildcard_no_fallback() {
    let mut r = Router::new();
    r.insert(Route::new("myapp.localhost", 3000, 1, None, vec![]));
    let h = Host::new("api.myapp.localhost").unwrap();
    assert!(r.resolve(&h).is_none());
}

#[test]
fn wildcard_fallback() {
    let mut r = Router::new();
    r.set_wildcard(true);
    r.insert(Route::new("myapp.localhost", 3000, 1, None, vec![]));
    let h = Host::new("tenant1.myapp.localhost").unwrap();
    let m = r.resolve(&h).unwrap();
    assert!(!m.exact);
    assert_eq!(m.port(), 3000);
    assert_eq!(m.hostname(), "myapp.localhost");
}

#[test]
fn wildcard_fallback_skips_unregistered_levels() {
    let mut r = Router::new();
    r.set_wildcard(true);
    r.insert(Route::new("myapp.localhost", 3000, 1, None, vec![]));
    let h = Host::new("a.b.myapp.localhost").unwrap();
    let m = r.resolve(&h).unwrap();
    assert!(!m.exact);
    assert_eq!(m.port(), 3000);
    assert!(r.resolve(&Host::new("other.localhost").unwrap()).is_none());
}

#[test]
fn exact_match_preferred_under_wildcard() {
    let mut r = Router::new();
    r.set_wildcard(true);
    r.insert(Route::new("myapp.localhost", 3000, 1, None, vec![]));
    r.insert(Route::new("api.myapp.localhost", 4000, 1, None, vec![]));
    let h = Host::new("api.myapp.localhost").unwrap();
    let m = r.resolve(&h).unwrap();
    assert!(m.exact);
    assert_eq!(m.port(), 4000);
}

#[test]
fn remove_and_list() {
    let mut r = Router::new();
    r.insert(Route::new("a.localhost", 3000, 1, None, vec![]));
    r.insert(Route::new("b.localhost", 3001, 1, None, vec![]));
    assert_eq!(r.len(), 2);
    assert!(r.remove("a.localhost").is_some());
    assert_eq!(r.len(), 1);
    assert!(r.remove("a.localhost").is_none());
    let l = r.list();
    assert_eq!(l.len(), 1);
    assert_eq!(l[0].hostname, "b.localhost");
}

#[test]
fn insert_overwrites_same_hostname() {
    let mut r = Router::new();
    r.insert(Route::new("a.localhost", 3000, 1, None, vec![]));
    r.insert(Route::new("a.localhost", 3100, 2, None, vec![]));
    assert_eq!(r.len(), 1);
    assert_eq!(r.get("a.localhost").unwrap().port, 3100);
    assert!(r.contains("a.localhost"));
}

#[test]
fn prune_dead_keeps_aliases_and_live() {
    let mut r = Router::new();
    r.insert(Route::new("dead.localhost", 3000, 11, None, vec![]));
    r.insert(Route::new("live.localhost", 3001, 12, None, vec![]));
    r.insert(Route::alias("redis.localhost", 6379));
    let removed = r.prune_dead(&vec![11, 0]);
    assert_eq!(removed, vec!["dead.localhost"]);
    assert_eq!(r.len(), 2);
    assert!(r.contains("redis.localhost"));
}

#[test]
fn route_liveness_asks_only_for_owned_pids() {
    let alias = Route::alias("a.localhost", 3000);
    assert!(alias.is_alive(|_| -> bool { panic!("aliases have no process") }));
    let orphan = Route::new("b.localhost", 4001, 0, None, vec![]);
    assert!(orphan.is_alive(|_| -> bool { panic!("pid 0 is never probed") }));
    let owned = Route::new("c.localhost", 4002, 4242, None, vec![]);
    assert!(owned.is_alive(|pid| pid == 4242));
    assert!(!owned.is_alive(|_| false));
}

#[test]
fn sanitize_label_is_idempotent_and_clean() {
    let long = "Ab-".repeat(40);
    for s in ["My App!", "feature/Login API", "___", "a--b..c", "ÄÖÜ-x", long.as_str()] {
        let r = sanitize_label(s);
        assert!(validate(&r).is_ok());
        assert!(!r.contains('.') && !r.contains("--"));
        assert!(!r.is_empty() && r.len() <= MAX_LABEL_LEN);
        assert!(r.chars().all(|c| c.is_ascii_lowercase() || c.is_ascii_digit() || c == '-'));
        assert_eq!(sanitize_label(&r), r);
    }
}

#[test]
fn parent_drops_one_label() {
    let h = Host::new("api.myapp.localhost").unwrap();
    let p = h.parent().unwrap();
    assert_eq!(format!("{}.{}", h.leftmost_label().unwrap(), p.as_str()), "api.myapp.localhost");
    assert_eq!(p.label_count() + 1, h.label_count());
    assert!(validate(p.as_str()).is_ok());
    assert!(Host::new("localhost").unwrap().parent().is_none());
}
