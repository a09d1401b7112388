use portless::common::error::{other, Error, ErrorContext};
use portless::common::net::{find_free_port, is_browser_blocked};
use portless::common::report::{
    build_issue_body, build_issue_url, first_line, percent_encode, truncate,
};
use portless::common::types::Version;
use portless::common::{ISSUES_URL, REPO_NAME, REPO_OWNER};

#[test]
fn missing_host_header_is_bad_request() {
    let e = Error::proxy("missing Host header");
    assert_eq!(e.http_status(), 400);
}

#[test]
fn route_not_found_is_404() {
    let e = Error::RouteNotFound("nope.localhost".into());
    assert_eq!(e.http_status(), 404);
}

#[test]
fn invalid_hostname_is_bad_request() {
    let e = Error::InvalidHostname("bad..name".into());
    assert_eq!(e.http_status(), 400);
}

#[test]
fn upstream_network_is_bad_gateway() {
    let e = Error::Network("connection refused".into());
    assert_eq!(e.http_status(), 502);
}

#[test]
fn timeout_is_gateway_timeout() {
    let e = Error::Timeout(5);
    assert_eq!(e.http_status(), 504);
}

#[test]
fn loop_detected_is_508() {
    let e = Error::LoopDetected(11);
    assert_eq!(e.http_status(), 508);
}

#[test]
fn unknown_defaults_to_500() {
    let e = Error::Config("oops".into());
    assert_eq!(e.http_status(), 500);
}

#[test]
fn error_messages_carry_their_prefix() {
    assert_eq!(Error::config("bad").to_string(), "configuration error: bad");
    assert_eq!(Error::Timeout(5).to_string(), "operation timed out after 5s");
    assert_eq!(Error::Cancelled.to_string(), "operation cancelled");
    assert_eq!(other("plain").to_string(), "plain");
}

#[test]
fn context_replaces_the_failure() {
    let failed: Result<u8, Error> = Err(Error::Cancelled);
    match failed.context("while loading") {
        Err(Error::Other(m)) => assert_eq!(m, "while loading"),
        r => panic!("unexpected {:?}", r),
    }
    let ok: Result<u8, Error> = Ok(7);
    assert_eq!(ok.context("unused").unwrap(), 7);
    let failed: Result<u8, Error> = Err(Error::Cancelled);
    match failed.with_context(|| "lazy".to_string()) {
        Err(Error::Other(m)) => assert_eq!(m, "lazy"),
        r => panic!("unexpected {:?}", r),
    }
}

#[test]
fn transient_errors() {
    assert!(Error::Network("x".into()).is_transient());
    assert!(Error::Timeout(1).is_transient());
    assert!(!Error::Config("x".into()).is_transient());
}

#[test]
fn browser_blocked_contains_known() {
    assert!(is_browser_blocked(6666));
    assert!(is_browser_blocked(6667));
    assert!(!is_browser_blocked(3000));
    assert!(!is_browser_blocked(8080));
}

#[test]
fn find_free_port_basic() {
    let p = find_free_port(50_000, 50_100, |_| true).unwrap();
    assert!((50_000..50_100).contains(&p));
    assert!(!is_browser_blocked(p));
}

#[test]
fn find_free_port_invalid_range() {
    let r = find_free_port(100, 50, |_| true);
    assert!(matches!(r, Err(Error::NoFreePort(100, 50))));
}

#[test]
fn find_free_port_skips_blocked_and_busy() {
    // 6665..=6669 are all browser-blocked; 6670 is reported busy.
    let p = find_free_port(6665, 6700, |q| q != 6670).unwrap();
    assert_eq!(p, 6671);
    let r = find_free_port(6665, 6670, |q| q != 6670);
    assert!(matches!(r, Err(Error::NoFreePort(6665, 6670))));
}

#[test]
fn find_free_port_range_is_inclusive() {
    assert_eq!(find_free_port(3000, 3000, |_| true).unwrap(), 3000);
    assert_eq!(find_free_port(65534, 65535, |q| q == 65535).unwrap(), 65535);
    assert!(matches!(find_free_port(3001, 3000, |_| true), Err(Error::NoFreePort(3001, 3000))));
}

#[test]
fn issue_url_contains_required_params() {
    let url = build_issue_url("test title", "test body", &["bug", "panic"]);
    assert!(url.starts_with(&format!("{}/new?", ISSUES_URL)));
    assert!(url.contains("title=test%20title"));
    assert!(url.contains("body=test%20body"));
    assert!(url.contains("labels=bug%2Cpanic"));
}

#[test]
fn percent_encode_handles_spaces_and_newlines() {
    assert_eq!(percent_encode("a b"), "a%20b");
    assert_eq!(percent_encode("a\nb"), "a%0Ab");
    assert_eq!(percent_encode("a/b"), "a%2Fb");
    assert_eq!(percent_encode("a-b_~."), "a-b_~.");
}

#[test]
fn percent_encode_multibyte() {
    assert_eq!(percent_encode("é"), "%C3%A9");
}

#[test]
fn truncate_caps_long_strings() {
    let s = "a".repeat(10_000);
    let out = truncate(&s, 100);
    assert!(out.ends_with('…'));
    assert!(out.len() <= 103);
}

#[test]
fn truncate_keeps_short_strings() {
    assert_eq!(truncate("short", 100), "short");
}

#[test]
fn first_line_picks_first_segment() {
    assert_eq!(first_line("hello\nworld"), "hello");
    assert_eq!(first_line("only one"), "only one");
}

#[test]
fn hint_surfaces_for_known_errors() {
    assert!(Error::RouteExists("h".into()).hint().is_some());
    assert!(Error::Permission("p".into()).hint().is_some());
    assert!(Error::Cancelled.hint().is_some());
    assert!(Error::Other("x".into()).hint().is_none());
}

#[test]
fn reportable_matches_documented_set() {
    assert!(Error::LoopDetected(3).is_reportable());
    assert!(Error::StateCorruption("x".into()).is_reportable());
    assert!(!Error::Cancelled.is_reportable());
    assert!(!Error::Config("x".into()).is_reportable());
}

#[test]
fn exit_codes_are_nonzero_for_failures() {
    assert_ne!(Error::Cancelled.exit_code(), 0);
    assert_ne!(Error::RouteExists("h".into()).exit_code(), 0);
}

#[test]
fn repo_constants_are_correct() {
    assert_eq!(REPO_OWNER, "muhammad-fiaz");
    assert_eq!(REPO_NAME, "portless");
    assert!(ISSUES_URL.starts_with("https://github.com/"));
}

#[test]
fn version_display() {
    assert_eq!(Version(1, 2, 3).to_string(), "1.2.3");
}

#[test]
fn version_parse() {
    let v: Version = "1.2.3".parse().unwrap();
    assert_eq!(v, Version(1, 2, 3));
}

#[test]
fn version_parse_rejects_malformed() {
    assert!(Version::parse("1.2").is_err());
    assert!(Version::parse("1.2.x").is_err());
    assert!(Version::parse("1.2.3.4").is_err());
}

#[test]
fn version_round_trip() {
    let v = Version::new(10, 0, 42);
    assert_eq!(Version::parse(&v.to_string()).unwrap(), v);
}

#[test]
fn version_ordering() {
    assert!(Version(1, 0, 0) < Version(1, 0, 1));
    assert!(Version(0, 9, 9) < Version(1, 0, 0));
}

#[test]
fn issue_body_lists_known_facts() {
    let body = build_issue_body("panic", "boom", Some("src/main.rs:1:1"), Some("0.1.0"), None);
    assert!(body.starts_with("### What happened\n\npanic: `boom`\n\n"));
    assert!(body.contains("**location:** `src/main.rs:1:1`\n"));
    assert!(body.contains("**portless version:** `0.1.0`\n"));
    assert!(!body.contains("**host:**"));
    assert!(body.ends_with("### Logs / extra context\n\n```\n\n```\n"));
}
