use portless::platform::paths::{join, starts_with_path, Paths};
use portless::platform::privilege::{ci_flag, Privilege};
use portless::platform::system::{pretty_name, OsKind};

#[test]
fn paths_are_inside_root() {
    let p = Paths::new("/tmp/portless-state");
    assert!(p.is_inside(&p.ca_cert()));
    assert!(p.is_inside(&p.routes_file()));
    assert!(!p.is_inside("/etc/passwd"));
}

#[test]
fn paths_layout() {
    let p = Paths::new("/home/u/.portless");
    assert_eq!(p.root(), "/home/u/.portless");
    assert_eq!(p.routes_file(), "/home/u/.portless/routes.json");
    assert_eq!(p.ca_cert(), "/home/u/.portless/ca/ca.pem");
    assert_eq!(p.ca_key(), "/home/u/.portless/ca/ca.key.pem");
    assert_eq!(p.cert_for("myapp.localhost"), "/home/u/.portless/ca/certs/myapp.localhost.pem");
    assert_eq!(p.key_for("myapp.localhost"), "/home/u/.portless/ca/certs/myapp.localhost.key.pem");
    assert_eq!(p.log_for("web"), "/home/u/.portless/logs/web.log");
}

#[test]
fn join_and_prefix() {
    assert_eq!(join("/a", "b"), "/a/b");
    assert_eq!(join("/a/", "b"), "/a/b");
    assert!(starts_with_path("/a/b/c", "/a/b"));
    assert!(!starts_with_path("/a/bc", "/a/b"));
}

#[test]
fn os_kind_is_known() {
    let k = OsKind::detect();
    assert!(matches!(k, OsKind::Linux | OsKind::Macos | OsKind::Windows | OsKind::Freebsd));
}

#[test]
fn os_kind_from_kernel_text() {
    assert_eq!(OsKind::from_kernel("Linux 6.8.0"), OsKind::Linux);
    assert_eq!(OsKind::from_kernel("Darwin 24.1.0"), OsKind::Macos);
    assert_eq!(OsKind::from_kernel("Windows OS Build 20348"), OsKind::Windows);
    assert_eq!(OsKind::from_kernel("FreeBSD 14"), OsKind::Freebsd);
    assert_eq!(OsKind::from_kernel("Plan 9"), OsKind::Unknown);
    assert_eq!(OsKind::Macos.as_str(), "macos");
    assert!(OsKind::Linux.is_linux());
}

#[test]
fn privilege_from_id_output() {
    assert_eq!(Privilege::from_uid_output("0\n"), Privilege::Root);
    assert_eq!(Privilege::from_uid_output("1000\n"), Privilege::User);
    assert!(Privilege::Root.is_elevated());
    assert!(!Privilege::User.is_elevated());
}

#[test]
fn ci_flag_values() {
    assert!(ci_flag(Some("1")));
    assert!(ci_flag(Some("TRUE")));
    assert!(ci_flag(Some("true")));
    assert!(!ci_flag(Some("yes")));
    assert!(!ci_flag(Some("0")));
    assert!(!ci_flag(None));
}

#[test]
fn pretty_name_from_os_release() {
    let text = "NAME=\"Ubuntu\"\nPRETTY_NAME=\"Ubuntu 24.04 LTS\"\nPRETTY_NAME=second\n";
    assert_eq!(pretty_name(text).as_deref(), Some("Ubuntu 24.04 LTS"));
    assert_eq!(pretty_name("PRETTY_NAME=Debian\r\n").as_deref(), Some("Debian"));
    assert_eq!(pretty_name("NAME=x\n"), None);
    assert_eq!(pretty_name("PRETTY_NAME=\"\"\"").as_deref(), Some(""));
}
