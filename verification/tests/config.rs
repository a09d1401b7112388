use portless::config::env::{child_env_for, Env};
use portless::config::portless_json::{
    npm_scope, short_package_name, AppConfig, PackageJsonPortlessKey, PortlessConfig,
    WorkspacesField,
};
use std::collections::HashMap;

fn make_env(pairs: &[(&str, &str)]) -> Env {
    let mut map = HashMap::new();
    for (k, v) in pairs {
        map.insert((*k).to_string(), (*v).to_string());
    }
    Env::from_map(map)
}

#[test]
fn bypass_detection() {
    assert!(!make_env(&[]).bypass());
    assert!(make_env(&[("PORTLESS", "0")]).bypass());
    assert!(!make_env(&[("PORTLESS", "1")]).bypass());
}

#[test]
fn port_parsing() {
    assert_eq!(make_env(&[("PORTLESS_PORT", "8443")]).port(), Some(8443));
    assert_eq!(make_env(&[]).port(), None);
}

#[test]
fn port_parsing_rejects_garbage() {
    assert_eq!(make_env(&[("PORTLESS_PORT", "80x")]).port(), None);
    assert_eq!(make_env(&[("PORTLESS_PORT", "70000")]).port(), None);
}

#[test]
fn lan_and_wildcard() {
    assert!(make_env(&[("PORTLESS_LAN", "1")]).lan());
    assert!(make_env(&[("PORTLESS_WILDCARD", "1")]).wildcard());
    assert!(!make_env(&[]).sync_hosts_disabled());
    assert!(make_env(&[("PORTLESS_SYNC_HOSTS", "0")]).sync_hosts_disabled());
}

#[test]
fn env_lookup_and_to_vec() {
    let env = Env::from_pairs(vec![
        ("PORTLESS_TLD", "test"),
        ("PORTLESS_TAILSCALE", "1"),
        ("PORTLESS_TAILSCALE_URL", "https://x.ts.net"),
        ("A", "b"),
    ]);
    assert_eq!(env.get("A"), Some("b"));
    assert_eq!(env.tld(), Some("test"));
    assert!(env.tailscale());
    let v = env.to_vec();
    let keys: Vec<&str> = v.iter().map(|(k, _)| k.as_str()).collect();
    assert_eq!(keys, vec!["A", "PORTLESS_TAILSCALE_URL", "PORTLESS_TLD"]);
}

#[test]
fn child_env_is_just_the_url() {
    let v = child_env_for("https://myapp.localhost");
    assert_eq!(v, vec![("PORTLESS_URL".to_string(), "https://myapp.localhost".to_string())]);
}

#[test]
fn short_name() {
    assert_eq!(short_package_name("@myorg/web"), "web");
    assert_eq!(short_package_name("plain"), "plain");
    assert_eq!(short_package_name("myorg-web"), "myorg-web");
}

#[test]
fn npm_scope_extraction() {
    assert_eq!(npm_scope("@myorg/web"), Some("myorg".into()));
    assert_eq!(npm_scope("plain"), None);
}

#[test]
fn workspace_patterns() {
    let w = WorkspacesField::List(vec!["packages/*".into()]);
    assert_eq!(w.patterns(), &["packages/*"]);
    let o = WorkspacesField::Object { packages: vec!["apps/*".into()] };
    assert_eq!(o.patterns(), &["apps/*"]);
}

#[test]
fn all_apps_top_level() {
    let mut cfg = PortlessConfig::default();
    cfg.name = Some("myapp".into());
    let apps = cfg.all_apps();
    assert_eq!(apps.len(), 1);
    assert_eq!(apps[0].0, ".");
    assert_eq!(apps[0].1.name.as_deref(), Some("myapp"));
}

#[test]
fn all_apps_lists_entries_in_path_order() {
    let mut cfg = PortlessConfig::default();
    let mut web = AppConfig::default();
    web.name = Some("web".into());
    let mut api = AppConfig::default();
    api.name = Some("api".into());
    cfg.apps.insert("apps/web".to_string(), web);
    cfg.apps.insert("apps/api".to_string(), api);
    let apps = cfg.all_apps();
    assert_eq!(apps.len(), 2);
    assert_eq!(apps[0].0, "apps/api");
    assert_eq!(apps[1].0, "apps/web");
    assert_eq!(cfg.app_config("apps/web").unwrap().name.as_deref(), Some("web"));
    assert!(cfg.app_config("apps/none").is_none());
}

#[test]
fn effective_name_falls_back() {
    let mut cfg = PortlessConfig::default();
    assert_eq!(cfg.effective_name(Some("@org/web"), Some("dir")), "web");
    assert_eq!(cfg.effective_name(None, Some("dir")), "dir");
    assert_eq!(cfg.effective_name(None, None), "app");
    assert_eq!(cfg.effective_script(), "dev");
    cfg.name = Some("named".into());
    cfg.script = Some("start".into());
    assert_eq!(cfg.effective_name(Some("@org/web"), Some("dir")), "named");
    assert_eq!(cfg.effective_script(), "start");
}

#[test]
fn package_json_key_into_config() {
    let c = PackageJsonPortlessKey::Shorthand("myapp".into()).into_config();
    assert_eq!(c.name.as_deref(), Some("myapp"));
    assert!(c.script.is_none());
    let mut obj = AppConfig::default();
    obj.name = Some("myapp".into());
    obj.script = Some("dev:app".into());
    let c = PackageJsonPortlessKey::Object(obj).into_config();
    assert_eq!(c.script.as_deref(), Some("dev:app"));
    let top = PortlessConfig::from_app_config(c);
    assert_eq!(top.name.as_deref(), Some("myapp"));
    assert_eq!(top.script.as_deref(), Some("dev:app"));
}

#[test]
fn lan_ip_is_the_raw_value() {
    let env = Env::from_pairs(vec![("PORTLESS_LAN_IP", "192.168.1.20")]);
    assert_eq!(env.lan_ip().as_deref(), Some("192.168.1.20"));
    assert_eq!(Env::from_pairs(Vec::<(&str, &str)>::new()).lan_ip(), None);
}
