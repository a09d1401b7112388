use portless::cli::commands::{
    alias_name, basename_of, build_child_env, child_url, compose_hostname,
    find_framework_basename, get_package_runners, is_framework_needing_port,
};
use portless::cli::plan::{
    alias_removed, alias_route, bind_address, check_bypass, check_named_command, choose_app_port,
    daemon_args, exit_code_of, hosts_entries, is_stale_log, list_lines, parse_pid,
    proxy_status_line, route_conflict, run_target, split_positional, tracing_level,
    zero_arg_plan, ZeroArgPlan,
};
use portless::common::error::Error;
use portless::config::env::Env;
use portless::config::portless_json::{PackageJsonShape, PortlessConfig};
use portless::common::report::{host_triple_for, panic_report_lines};
use portless::dashboard::{http_response, index, page_for, DashboardPage, INDEX_HTML};
use portless::discovery::framework::Framework;
use portless::discovery::monorepo::MonorepoKind;
use portless::discovery::project::Project;
use portless::platform::system::OsKind;
use portless::proxy::{
    error_page, forwarded_header, html_escape, strip_hop_by_hop, is_tls_hello, plan_forward, simple_page,
    ForwardPlan, ProxyConfig, MAX_HOPS,
};
use portless::routing::match_::{Route, Router};
use portless::routing::tld::Tld;
use portless::service::{
    launchd_status, start_command_line, systemd_unit, ServiceBackend, ServiceManager,
};
use portless::state::proxy_state::ProxyState;
use portless::tailscale::{status_facts, StatusFacts, Tailscale};
use portless::text_map::TextMap;
use portless::trust::{install_plan, step_outcome, uninstall_plan, TrustStep};
use portless::worktree::WorktreeInfo;

fn strings(list: &[&str]) -> Vec<String> {
    list.iter().map(|s| s.to_string()).collect()
}

#[test]
fn hop_by_hop_stripped() {
    assert!(!forwarded_header("connection"));
    assert!(!forwarded_header("Connection"));
    assert!(!forwarded_header("host"));
    assert!(!forwarded_header("Transfer-Encoding"));
    assert!(forwarded_header("x-custom"));
    let h = |k: &str, v: &str| (k.to_string(), v.as_bytes().to_vec());
    let incoming = vec![
        h("Host", "a.localhost"),
        h("accept", "a"),
        h("Connection", "keep-alive"),
        h("accept", "b"),
        h("Upgrade", "websocket"),
        h("x-custom", "1"),
    ];
    assert_eq!(strip_hop_by_hop(incoming), vec![h("accept", "a"), h("accept", "b"), h("x-custom", "1")]);
}

#[test]
fn plan_forward_routes_and_errors() {
    let mut router = Router::new();
    router.insert(Route::new("myapp.localhost", 3000, 1, None, vec![]));
    match plan_forward(&router, Some("myapp.localhost:443"), Some("2"), Some("/a?b=1")).unwrap() {
        ForwardPlan::Forward { host, port, uri, hops } => {
            assert_eq!(host, "myapp.localhost");
            assert_eq!(port, 3000);
            assert_eq!(uri, "http://127.0.0.1:3000/a?b=1");
            assert_eq!(hops, "3");
        }
        p => panic!("unexpected {:?}", p),
    }
    match plan_forward(&router, Some("myapp.localhost"), None, None).unwrap() {
        ForwardPlan::Forward { uri, hops, .. } => {
            assert_eq!(uri, "http://127.0.0.1:3000/");
            assert_eq!(hops, "1");
        }
        p => panic!("unexpected {:?}", p),
    }
    let too_many = (MAX_HOPS + 1).to_string();
    assert!(matches!(
        plan_forward(&router, Some("myapp.localhost"), Some(&too_many), None),
        Ok(ForwardPlan::LoopDetected)
    ));
    assert!(matches!(plan_forward(&router, None, None, None), Err(Error::Proxy(_))));
    assert!(matches!(
        plan_forward(&router, Some("other.localhost"), None, None),
        Err(Error::RouteNotFound(_))
    ));
    match plan_forward(&router, Some("bad..host"), None, None) {
        Err(e) => {
            assert!(matches!(e, Error::InvalidHostname(_)));
            assert_eq!(e.http_status(), 400);
        },
        Ok(_) => panic!("a malformed Host is refused"),
    }
}

#[test]
fn error_pages_carry_status_and_reason() {
    let (status, html) = error_page(&Error::RouteNotFound("x.localhost".into()));
    assert_eq!(status, 404);
    assert!(html.contains("<title>Not Found</title>"));
    assert!(html.contains("route not found: x.localhost"));
    let (status, html) = error_page(&Error::LoopDetected(6));
    assert_eq!(status, 508);
    assert!(html.contains("<title>Loop Detected</title>"));
    let (_, html) = error_page(&Error::Proxy("<script>".into()));
    assert!(html.contains("&lt;script&gt;"));
    assert!(!html.contains("<script>"));
}

#[test]
fn html_helpers() {
    assert_eq!(html_escape("a<b>&\"'"), "a&lt;b&gt;&amp;&quot;'");
    let p = simple_page("T", "B");
    assert!(p.contains("<title>T</title>"));
    assert!(p.contains("<h1>T</h1><p>B</p>"));
    assert!(is_tls_hello(&[0x16, 3, 1], 3));
    assert!(!is_tls_hello(&[b'G', b'E', b'T'], 3));
    assert!(!is_tls_hello(&[0x16], 0));
}

#[test]
fn proxy_config_from_env() {
    let env = Env::from_pairs(vec![("PORTLESS_PORT", "8443"), ("PORTLESS_TLD", "Test")]);
    let cfg = ProxyConfig::from_env(&env).unwrap();
    assert_eq!(cfg.port, 8443);
    assert!(cfg.https);
    assert_eq!(cfg.tld.as_str(), "test");
    assert_eq!(cfg.bind(), "0.0.0.0:8443");
    assert_eq!(cfg.state().port, 8443);
    let bad = Env::from_pairs(vec![("PORTLESS_TLD", "co.uk")]);
    assert!(matches!(ProxyConfig::from_env(&bad), Err(Error::InvalidTld(_))));
}

#[test]
fn trust_plans_per_os() {
    let steps = install_plan(OsKind::Linux, "/tmp/portless-ca.pem").unwrap();
    assert_eq!(steps.len(), 2);
    assert_eq!(steps[0].program, "sudo");
    assert_eq!(
        steps[0].args,
        strings(&["cp", "/tmp/portless-ca.pem", "/usr/local/share/ca-certificates/portless-ca.crt"])
    );
    assert!(steps[0].failure.is_some());
    assert_eq!(steps[1].args, strings(&["update-ca-certificates"]));
    assert!(steps[1].failure.is_none());
    let mac = install_plan(OsKind::Macos, "/tmp/ca.pem").unwrap();
    assert_eq!(mac[0].args.last().unwrap(), "/tmp/ca.pem");
    let win = install_plan(OsKind::Windows, "C:\\ca.pem").unwrap();
    assert_eq!(win[0].program, "certutil");
    assert!(matches!(install_plan(OsKind::Freebsd, "/x"), Err(Error::UnsupportedPlatform(_))));
    let un = uninstall_plan(OsKind::Linux).unwrap();
    assert_eq!(un.len(), 2);
    assert!(un.iter().all(|s| s.failure.is_none()));
    assert!(matches!(uninstall_plan(OsKind::Unknown), Err(Error::UnsupportedPlatform(_))));
}

#[test]
fn trust_step_outcomes() {
    let checked = TrustStep {
        program: "certutil".into(),
        args: vec![],
        failure: Some("certutil addstore failed".into()),
    };
    assert!(step_outcome(&checked, Ok(true)).is_ok());
    match step_outcome(&checked, Ok(false)) {
        Err(Error::Tls(m)) => assert_eq!(m, "certutil addstore failed"),
        r => panic!("unexpected {:?}", r),
    }
    assert!(matches!(step_outcome(&checked, Err("no such file".into())), Err(Error::Io(_))));
    let ignored = TrustStep { program: "sudo".into(), args: vec![], failure: None };
    assert!(step_outcome(&ignored, Ok(false)).is_ok());
    assert!(step_outcome(&ignored, Err("x".into())).is_ok());
}

fn facts(ok: bool, certs: Option<usize>, funnel: Option<bool>, dns: Option<&str>) -> StatusFacts {
    StatusFacts { ok, certs, funnel_enabled: funnel, dns_name: dns.map(|s| s.to_string()) }
}

#[test]
fn tailscale_decisions() {
    let good = facts(true, Some(1), Some(true), Some("node.tail1234.ts.net."));
    assert!(Tailscale::preflight(&good, true).is_ok());
    assert!(Tailscale::preflight(&facts(true, Some(0), None, None), false).is_err());
    assert!(Tailscale::preflight(&facts(true, Some(1), Some(false), None), true).is_err());
    assert!(Tailscale::preflight(&facts(true, Some(1), Some(false), None), false).is_ok());
    assert_eq!(Tailscale::tailnet_name(&good).unwrap(), "node.tail1234.ts.net");
    assert!(Tailscale::tailnet_name(&facts(false, None, None, None)).is_err());
    assert_eq!(Tailscale::serve_args(3000, true), strings(&["serve", "funnel", "--bg", "--https", "3000"]));
    assert_eq!(Tailscale::serve_args(3000, false), strings(&["serve", "--bg", "--https", "3000"]));
    let ts = Tailscale::with_path("/usr/bin/tailscale");
    assert_eq!(ts.bin(), "/usr/bin/tailscale");
    assert_eq!(
        ts.serve_url("myapp.localhost", Some("tail1234.ts.net")).unwrap(),
        Some("https://myapp.tail1234.ts.net".to_string())
    );
    assert_eq!(ts.serve_url("myapp.localhost", None).unwrap(), Some("https://myapp.ts.net".to_string()));
}

#[test]
fn worktree_info_from_git() {
    let main = WorktreeInfo::from_git("/repo\n", ".git\n", ".git\n", Some("main".into()));
    assert_eq!(main.path, "/repo");
    assert!(main.is_main);
    assert!(main.hostname_prefix().is_none());
    let linked = WorktreeInfo::from_git(
        "/wt/feature\n",
        "/repo/.git\n",
        "/repo/.git/worktrees/feature\n",
        Some("feature/Login API".into()),
    );
    assert!(!linked.is_main);
    assert_eq!(linked.hostname_prefix(), Some("feature-login-api".to_string()));
}

#[test]
fn dashboard_index_is_the_page() {
    assert_eq!(index(), INDEX_HTML);
    assert!(index().starts_with("<!DOCTYPE html>"));
}

#[test]
fn service_texts() {
    let s = ProxyState::new(false, 8080, Tld::default());
    assert_eq!(
        start_command_line(&s, "/usr/bin/portless"),
        "/usr/bin/portless proxy start --port 8080 --tld localhost --no-tls"
    );
    let unit = systemd_unit(&s, "/usr/bin/portless");
    assert!(unit.starts_with("[Unit]\nDescription=Portless local development proxy\n"));
    assert!(unit.contains("ExecStart=/usr/bin/portless proxy start --port 8080 --tld localhost --no-tls\n"));
    assert_eq!(ServiceBackend::for_os(OsKind::Linux), ServiceBackend::Systemd);
    assert_eq!(ServiceBackend::for_os(OsKind::Freebsd), ServiceBackend::Unsupported);
    assert!(ServiceManager::with(ServiceBackend::Unsupported).check_supported().is_err());
    assert!(ServiceManager::with(ServiceBackend::Launchd).check_supported().is_ok());
    let _ = launchd_status("");
}

#[test]
fn command_helpers() {
    assert_eq!(basename_of("/usr/local/bin/vite"), "vite");
    assert!(is_framework_needing_port("vite"));
    assert!(!is_framework_needing_port("next"));
    assert!(get_package_runners("npx").is_some());
    assert!(get_package_runners("vite").is_none());
    assert_eq!(find_framework_basename(&strings(&["npx", "vite", "dev"])), Some("vite".to_string()));
    let tld = Tld::new("localhost").unwrap();
    assert_eq!(compose_hostname("web".into(), Some("feat".into()), &tld), "feat.web.localhost");
    assert_eq!(compose_hostname("web".into(), Some(String::new()), &tld), "web.localhost");
    assert_eq!(child_url("web.localhost", true), "https://web.localhost");
    assert_eq!(alias_name("redis", "localhost"), "redis.localhost");
    assert_eq!(alias_name("redis.test", "localhost"), "redis.test");
    let env = build_child_env("web.localhost", 4001, "localhost", None, false);
    let keys: Vec<&str> = env.iter().map(|(k, _)| k.as_str()).collect();
    assert_eq!(keys, vec!["PORT", "HOST", "PORTLESS_URL", "PORTLESS_TLD", "PORTLESS_HTTPS"]);
    assert_eq!(env[2].1, "http://web.localhost");
}

#[test]
fn plan_helpers() {
    assert!(check_bypass(Some("0")).is_err());
    assert!(check_bypass(Some("1")).is_ok());
    assert!(check_bypass(None).is_ok());
    assert_eq!(tracing_level(0), "warn");
    assert_eq!(tracing_level(2), "debug");
    assert_eq!(tracing_level(9), "trace");
    let (name, rest) = split_positional(strings(&["web", "npm", "run", "dev"])).unwrap();
    assert_eq!(name, "web");
    assert_eq!(rest, strings(&["npm", "run", "dev"]));
    assert!(split_positional(vec![]).is_err());
    assert!(check_named_command(&vec![]).is_err());
    assert_eq!(run_target(&vec![], "pnpm", "dev"), ("pnpm".to_string(), strings(&["run", "dev"])));
    assert_eq!(
        run_target(&strings(&["cargo", "run"]), "npm", "dev"),
        ("cargo".to_string(), strings(&["run"]))
    );
    assert_eq!(choose_app_port(None, Some(5000), Some(4100)), 5000);
    assert_eq!(choose_app_port(None, None, None), 4000);
    assert_eq!(exit_code_of(None, Some(9)), 9);
    assert_eq!(exit_code_of(None, None), 1);
    let existing = Route::new("a.localhost", 3000, 77, None, vec![]);
    assert!(matches!(route_conflict(Some(&existing), "a.localhost", false), Err(Error::RouteExists(_))));
    assert_eq!(route_conflict(Some(&existing), "a.localhost", true).unwrap(), Some(77));
    assert_eq!(route_conflict(None, "a.localhost", false).unwrap(), None);
    let alias = alias_route("redis", Some(6379), "localhost").unwrap();
    assert_eq!(alias.hostname, "redis.localhost");
    assert!(alias.alias);
    assert!(alias_route("redis", None, "localhost").is_err());
    assert!(matches!(alias_removed("redis", false), Err(Error::RouteNotFound(_))));
    assert_eq!(bind_address(443), "0.0.0.0:443");
    assert_eq!(daemon_args(443, "test"), strings(&["proxy", "start", "--port", "443", "--tld", "test", "--foreground"]));
    assert_eq!(parse_pid(" 123\n"), 123);
    assert_eq!(parse_pid("abc"), 0);
    assert_eq!(proxy_status_line(Some(5), Some("443\n"), true), "proxy: pid=5 port=443 alive=true");
    assert_eq!(proxy_status_line(None, Some("443"), true), "proxy: not running");
    assert!(is_stale_log("gone.localhost.2.log", &strings(&["web.localhost"])));
    assert!(!is_stale_log("web.localhost.1.log", &strings(&["web.localhost"])));
    assert!(!is_stale_log("notes.txt", &vec![]));
}

#[test]
fn list_and_hosts_lines() {
    assert_eq!(list_lines(&vec![]), strings(&["(no routes registered)"]));
    let routes = vec![Route::alias("redis.localhost", 6379)];
    let lines = list_lines(&routes);
    assert_eq!(lines.len(), 2);
    assert!(lines[0].starts_with("HOSTNAME"));
    assert!(lines[1].starts_with("redis.localhost"));
    assert!(lines[1].ends_with("<alias>"));
    let hosts = hosts_entries(&routes);
    assert_eq!(hosts[0].ip, "127.0.0.1");
    assert_eq!(hosts[0].hostnames, strings(&["redis.localhost"]));
}

#[test]
fn zero_arg_plans() {
    let cfg = PortlessConfig::default();
    let empty = Project::from_parts("/p".into(), None, None, None, None);
    assert!(matches!(zero_arg_plan(&cfg, &empty), ZeroArgPlan::NoProject));
    let mono = Project::from_parts("/p".into(), None, Some(MonorepoKind::Pnpm), Some(Framework::Next), None);
    assert!(matches!(zero_arg_plan(&cfg, &mono), ZeroArgPlan::Monorepo));
    let mut scripts = TextMap::new();
    scripts.insert("start".to_string(), "node s.js".to_string());
    scripts.insert("build".to_string(), "tsc".to_string());
    let pkg = PackageJsonShape { name: None, portless: None, workspaces: None, scripts, package_manager: None };
    let js = Project::from_parts("/p".into(), None, None, None, Some(pkg));
    match zero_arg_plan(&cfg, &js) {
        ZeroArgPlan::MissingScript { script, available } => {
            assert_eq!(script, "dev");
            assert_eq!(available, "build, start");
        }
        p => panic!("unexpected {:?}", p),
    }
    let cargo = Project::from_parts("/p".into(), None, None, Some(Framework::Cargo), None);
    match zero_arg_plan(&cfg, &cargo) {
        ZeroArgPlan::Run { script } => assert_eq!(script, "dev"),
        p => panic!("unexpected {:?}", p),
    }
}

#[test]
fn dashboard_routes_requests() {
    assert_eq!(page_for("GET / HTTP/1.1\r\nHost: x\r\n\r\n"), DashboardPage::Index);
    assert_eq!(page_for("GET /index.html HTTP/1.1\r\n"), DashboardPage::Index);
    assert_eq!(page_for("GET /api/status HTTP/1.1\r\n"), DashboardPage::Status);
    assert_eq!(page_for("GET /api/metrics HTTP/1.1\r\n"), DashboardPage::Metrics);
    assert_eq!(page_for("GET /healthz HTTP/1.1\r\n"), DashboardPage::Health);
    assert_eq!(page_for("GET /nope HTTP/1.1\r\n"), DashboardPage::NotFound);
    assert_eq!(page_for(""), DashboardPage::Index);
    assert_eq!(DashboardPage::NotFound.status_line(), "HTTP/1.1 404 Not Found");
    assert_eq!(DashboardPage::Health.content_type(), "text/plain; charset=utf-8");
    assert_eq!(
        http_response("HTTP/1.1 200 OK", "text/plain; charset=utf-8", "é"),
        "HTTP/1.1 200 OK\r\ncontent-type: text/plain; charset=utf-8\r\ncontent-length: 2\r\nconnection: close\r\n\r\né"
    );
}

#[test]
fn error_and_panic_reports() {
    assert_eq!(host_triple_for(OsKind::Linux, "x86_64"), Some("linux/x86_64".to_string()));
    assert_eq!(host_triple_for(OsKind::Macos, "aarch64"), Some("macos/aarch64".to_string()));
    assert_eq!(host_triple_for(OsKind::Freebsd, "x86_64"), None);
    assert_eq!(host_triple_for(OsKind::Linux, "riscv64"), None);
    let lines = Error::RouteExists("a.localhost".into()).report_lines("0.1.0", Some("linux/x86_64"));
    assert_eq!(lines.len(), 3);
    assert_eq!(lines[1], "portless: route already exists: a.localhost");
    assert!(lines[2].starts_with("hint:     "));
    let lines = Error::LoopDetected(7).report_lines("0.1.0", None);
    assert_eq!(lines[lines.len() - 2], "If this looks like a bug, please file a report:");
    assert!(lines[lines.len() - 1].starts_with("  https://github.com/muhammad-fiaz/portless/issues/new?title=error%3A%20"));
    let p = panic_report_lines("boom\nmore", "src/x.rs:1:2", "0.1.0", None);
    assert_eq!(p.len(), 11);
    assert!(p[4].contains("title=panic%3A%20boom&"));
    assert_eq!(p[6], "  payload:  boom\nmore");
    assert_eq!(p[9], "  host:     unknown");
    assert_eq!(p[1], p[10]);
}

#[test]
fn proxy_config_default_ports() {
    let plain = Env::from_pairs(vec![("PORTLESS_HTTPS", "0")]);
    let cfg = ProxyConfig::from_env(&plain).unwrap();
    assert!(!cfg.https);
    assert_eq!(cfg.port, 80);
    assert_eq!(cfg.tld.as_str(), "localhost");
    let secure = Env::from_pairs(Vec::<(&str, &str)>::new());
    assert_eq!(ProxyConfig::from_env(&secure).unwrap().port, 443);
}

#[test]
fn upstream_failure_is_bad_gateway() {
    let e = portless::proxy::upstream_failure("connection refused");
    assert!(matches!(&e, Error::Network(m) if m == "upstream: connection refused"));
    assert_eq!(e.http_status(), 502);
}

#[test]
fn tailscale_status_facts_from_output() {
    let out = br#"{"Certs":["a.ts.net"],"FunnelEnabled":true,"Self":{"DNSName":"box.tail123.ts.net."}}"#;
    let f = status_facts(true, &out[..]).unwrap();
    assert!(f.ok);
    assert_eq!(f.certs, Some(1));
    assert_eq!(f.funnel_enabled, Some(true));
    assert_eq!(f.dns_name.as_deref(), Some("box.tail123.ts.net."));
    assert_eq!(Tailscale::tailnet_name(&f).unwrap(), "box.tail123.ts.net");
    let bare = status_facts(true, &b"{}"[..]).unwrap();
    assert!(bare.ok && bare.certs.is_none() && bare.funnel_enabled.is_none() && bare.dns_name.is_none());
    let failed = status_facts(false, &b"garbage"[..]).unwrap();
    assert!(!failed.ok && failed.certs.is_none());
    assert!(matches!(status_facts(true, &b"not json"[..]), Err(Error::Json(_))));
}

#[test]
fn upgrade_requests_are_routed_then_refused() {
    let mut router = Router::new();
    router.insert(Route::new("myapp.localhost", 4001, 0, None, vec![]));
    assert!(matches!(portless::proxy::handle_upgrade(&router, Some("myapp.localhost:443")), Error::NotImplemented(_)));
    assert!(matches!(portless::proxy::handle_upgrade(&router, Some("other.localhost")), Error::RouteNotFound(_)));
    assert!(matches!(portless::proxy::handle_upgrade(&router, Some("bad..host")), Error::InvalidHostname(_)));
    assert!(matches!(portless::proxy::handle_upgrade(&router, None), Error::Proxy(_)));
}
