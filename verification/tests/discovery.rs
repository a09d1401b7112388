use portless::config::portless_json::PackageJsonShape;
use portless::discovery::framework::Framework;
use portless::discovery::monorepo::{
    glob_prefix, pnpm_globs, pnpm_globs_from, to_forward_slashes, MonorepoKind,
};
use portless::common::error::Error;
use portless::discovery::package_manager::PackageManager;
use portless::discovery::project::{Project, ProjectKind};
use portless::text_map::TextMap;

fn names(list: &[&str]) -> Vec<String> {
    list.iter().map(|s| s.to_string()).collect()
}

#[test]
fn detect_via_config() {
    let f = Framework::detect_in(&names(&["next.config.js"]), None);
    assert_eq!(f, Some(Framework::Next));
}

#[test]
fn detect_via_dep() {
    let deps = names(&["vite"]);
    let f = Framework::detect_in(&names(&["package.json"]), Some(&deps));
    assert_eq!(f, Some(Framework::Vite));
}

#[test]
fn detect_cargo() {
    let f = Framework::detect_in(&names(&["Cargo.toml"]), None);
    assert_eq!(f, Some(Framework::Cargo));
}

#[test]
fn detect_go() {
    let f = Framework::detect_in(&names(&["go.mod"]), None);
    assert_eq!(f, Some(Framework::Go));
}

#[test]
fn detect_python_pyproject() {
    let f = Framework::detect_in(&names(&["pyproject.toml"]), None);
    assert_eq!(f, Some(Framework::Python));
}

#[test]
fn detect_python_requirements() {
    let f = Framework::detect_in(&names(&["requirements.txt"]), None);
    assert_eq!(f, Some(Framework::Python));
}

#[test]
fn detect_deno() {
    let f = Framework::detect_in(&names(&["deno.json"]), None);
    assert_eq!(f, Some(Framework::Deno));
}

#[test]
fn detect_ruby() {
    let f = Framework::detect_in(&names(&["Gemfile"]), None);
    assert_eq!(f, Some(Framework::Ruby));
}

#[test]
fn empty_dir_returns_none() {
    let f = Framework::detect_in(&Vec::new(), None);
    assert_eq!(f, None);
}

#[test]
fn package_json_without_known_dep_is_unknown() {
    let deps = names(&["left-pad"]);
    let f = Framework::detect_in(&names(&["package.json"]), Some(&deps));
    assert_eq!(f, Some(Framework::Unknown));
}

#[test]
fn framework_basenames_and_flags() {
    assert_eq!(Framework::from_basename("vite"), Some(Framework::Vite));
    assert_eq!(Framework::from_basename("not-a-framework"), None);
    assert!(Framework::Vite.strict_port());
    assert!(!Framework::Next.strict_port());
    assert_eq!(Framework::Vite.port_flags(), vec!["--port"]);
    assert_eq!(Framework::Next.name(), "Next.js");
}

#[test]
fn detect_pnpm_workspace() {
    let pm = PackageManager::detect_in(None, &names(&["pnpm-workspace.yaml"]), &Vec::new());
    assert_eq!(pm, PackageManager::Pnpm);
}

#[test]
fn detect_yarn_lock() {
    let pm = PackageManager::detect_in(None, &names(&["yarn.lock"]), &Vec::new());
    assert_eq!(pm, PackageManager::Yarn);
}

#[test]
fn detect_bun_lock() {
    let pm = PackageManager::detect_in(None, &names(&["bun.lock"]), &Vec::new());
    assert_eq!(pm, PackageManager::Bun);
}

#[test]
fn default_npm() {
    let pm = PackageManager::detect_in(None, &Vec::new(), &Vec::new());
    assert_eq!(pm, PackageManager::Npm);
}

#[test]
fn detect_via_package_manager_field() {
    let pm = PackageManager::detect_in(Some("pnpm@9.0.0"), &names(&["package.json"]), &Vec::new());
    assert_eq!(pm, PackageManager::Pnpm);
}

#[test]
fn package_manager_field_wins_over_lockfiles() {
    let pm = PackageManager::detect_in(Some("yarn@4.1.0"), &names(&["pnpm-lock.yaml"]), &Vec::new());
    assert_eq!(pm, PackageManager::Yarn);
    assert_eq!(PackageManager::from_package_manager_field("cargo@1"), None);
}

#[test]
fn run_command() {
    assert_eq!(PackageManager::Pnpm.run_command("dev", &[]), vec!["pnpm", "run", "dev"]);
    assert_eq!(PackageManager::Npm.run_command("dev", &[]), vec!["npm", "run", "dev"]);
    assert_eq!(PackageManager::Bun.run_command("dev", &[]), vec!["bun", "run", "dev"]);
}

#[test]
fn run_command_passes_extra_args() {
    let extra = names(&["--open"]);
    assert_eq!(PackageManager::Deno.run_command("dev", &extra), vec!["deno", "task", "dev", "--open"]);
}

#[test]
fn pnpm_workspace_enumeration() {
    let kind = MonorepoKind::detect_in(&names(&["pnpm-workspace.yaml", "apps"]), false).unwrap();
    assert_eq!(kind, MonorepoKind::Pnpm);
    assert_eq!(glob_prefix("apps/*"), "apps");
    assert_eq!(glob_prefix("apps/**"), "apps");
}

#[test]
fn npm_workspaces() {
    let kind = MonorepoKind::detect_in(&names(&["package.json", "packages"]), true).unwrap();
    assert_eq!(kind, MonorepoKind::Npm);
}

#[test]
fn not_a_monorepo_is_a_config_error() {
    assert!(MonorepoKind::detect_in(&names(&["package.json"]), false).is_err());
    assert_eq!(to_forward_slashes("apps\\web"), "apps/web");
}

#[test]
fn empty_dir_is_single() {
    let p = Project::from_parts("/tmp/x".into(), None, None, None, None);
    assert!(p.is_single());
    assert!(!p.is_monorepo());
    assert!(p.scripts.is_empty());
    assert_eq!(p.default_script(), "dev");
}

#[test]
fn package_json_with_dev_script() {
    let mut scripts = TextMap::new();
    scripts.insert("dev".to_string(), "next dev".to_string());
    scripts.insert("build".to_string(), "next build".to_string());
    let pkg = PackageJsonShape {
        name: Some("x".into()),
        portless: None,
        workspaces: None,
        scripts,
        package_manager: None,
    };
    let p = Project::from_parts("/tmp/x".into(), None, Some(MonorepoKind::Npm), None, Some(pkg));
    assert_eq!(p.package_name.as_deref(), Some("x"));
    assert!(p.has_script("dev"));
    assert!(p.has_script("build"));
    assert!(!p.has_script("test"));
    assert_eq!(p.kind, ProjectKind::Monorepo(MonorepoKind::Npm));
}

#[test]
fn pnpm_globs_reads_packages_list() {
    let text = b"packages:\n  - 'apps/*'\n  - packages/*\n  - 3\n";
    let globs = pnpm_globs(text).unwrap();
    assert_eq!(globs, vec!["apps/*".to_string(), "packages/*".to_string()]);
}

#[test]
fn pnpm_globs_without_packages_is_empty() {
    assert!(pnpm_globs(b"catalog:\n  react: ^18\n").unwrap().is_empty());
    assert!(pnpm_globs(b"packages: apps/*\n").unwrap().is_empty());
}

#[test]
fn pnpm_globs_bad_yaml_is_config_error() {
    match pnpm_globs(b"packages: [unclosed\n") {
        Err(Error::Config(m)) => assert!(m.starts_with("pnpm-workspace.yaml: ")),
        other => panic!("unexpected: {:?}", other),
    }
}

#[test]
fn pnpm_globs_from_keeps_strings_in_order() {
    let parsed = Ok(Some(vec![Some("a/*".to_string()), None, Some("b/**".to_string())]));
    assert_eq!(pnpm_globs_from(parsed).unwrap(), vec!["a/*".to_string(), "b/**".to_string()]);
    assert!(pnpm_globs_from(Ok(None)).unwrap().is_empty());
    match pnpm_globs_from(Err("oops".to_string())) {
        Err(Error::Config(m)) => assert_eq!(m, "pnpm-workspace.yaml: oops"),
        other => panic!("unexpected: {:?}", other),
    }
}

#[test]
fn framework_unknown_for_unreadable_package_json() {
    assert_eq!(Framework::detect_from(&names(&["package.json"]), Some(&b"{"[..])), Some(Framework::Unknown));
    assert_eq!(Framework::detect_in(&names(&["package.json"]), None), Some(Framework::Unknown));
    assert_eq!(Framework::detect_from(&names(&["README.md"]), None), None);
}

#[test]
fn framework_from_package_json_bytes() {
    let pkg = br#"{"dependencies":{"react":"18"},"devDependencies":{"vite":"5"}}"#;
    assert_eq!(Framework::detect_from(&names(&["package.json"]), Some(&pkg[..])), Some(Framework::Vite));
    let plain = br#"{"name":"x"}"#;
    assert_eq!(Framework::detect_from(&names(&["package.json"]), Some(&plain[..])), Some(Framework::Unknown));
}

#[test]
fn package_manager_from_package_json_field() {
    let pkg = br#"{"packageManager":"bun@1.1.0"}"#;
    assert_eq!(PackageManager::detect_from(Some(&pkg[..]), &names(&["yarn.lock"]), &Vec::new()), PackageManager::Bun);
    assert_eq!(PackageManager::detect_from(Some(&b"not json"[..]), &names(&["yarn.lock"]), &Vec::new()), PackageManager::Yarn);
}

#[test]
fn package_manager_from_parent_lockfile() {
    let parents = vec![names(&["src"]), names(&["yarn.lock"]), names(&["pnpm-lock.yaml"])];
    assert_eq!(PackageManager::detect_in(None, &names(&["package.json"]), &parents), PackageManager::Yarn);
    assert_eq!(PackageManager::detect_in(None, &names(&["package-lock.json"]), &parents), PackageManager::Npm);
    assert_eq!(PackageManager::detect_in(None, &names(&["node_modules/.pnpm"]), &Vec::new()), PackageManager::Pnpm);
}
