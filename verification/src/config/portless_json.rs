//! `portless.json` and `package.json` "portless" key configuration.
//!
//! The types here hold what the files say; reading and writing the files
//! is left to the caller.

use vstd::prelude::*;
use crate::routing::match_::{clone_opt, opt_view};
use crate::text::{chars_of, find_char, first_index, has_char, lemma_first_index, owned, string_of_range};
use crate::text_map::TextMap;

verus! {

/// Per-app configuration.
#[derive(Debug, Clone)]
pub struct AppConfig {
    /// App name.
    pub name: Option<String>,
    /// Script name.
    pub script: Option<String>,
    /// Fixed port.
    pub app_port: Option<u16>,
    /// Whether to proxy.
    pub proxy: Option<bool>,
}

/// The fields of an [`AppConfig`] as plain values.
pub type AppConfigView = (Option<Seq<char>>, Option<Seq<char>>, Option<u16>, Option<bool>);

impl View for AppConfig {
    type V = AppConfigView;

    open spec fn view(&self) -> AppConfigView {
        (opt_view(self.name), opt_view(self.script), self.app_port, self.proxy)
    }
}

impl AppConfig {
    /// A configuration with no fields set.
    pub fn empty() -> (c: Self)
        ensures
            c@ == (None::<Seq<char>>, None::<Seq<char>>, None::<u16>, None::<bool>),
    {
        AppConfig { name: None, script: None, app_port: None, proxy: None }
    }

    /// A copy with the same fields.
    pub fn copy(&self) -> (c: Self)
        ensures
            c@ == self@,
    {
        AppConfig {
            name: clone_opt(&self.name),
            script: clone_opt(&self.script),
            app_port: self.app_port,
            proxy: self.proxy,
        }
    }
}

impl Default for AppConfig {
    /// A configuration with no fields set.
    fn default() -> (c: Self)
        ensures
            c@ == (None::<Seq<char>>, None::<Seq<char>>, None::<u16>, None::<bool>),
    {
        AppConfig::empty()
    }
}

/// Top-level Portless configuration.
#[derive(Debug)]
pub struct PortlessConfig {
    /// Base app name (used to construct the hostname).
    pub name: Option<String>,
    /// Default script to run.
    pub script: Option<String>,
    /// Fixed port for the child process (skip auto-assignment).
    pub app_port: Option<u16>,
    /// Whether to route through the proxy.
    pub proxy: Option<bool>,
    /// Per-app overrides, keyed by relative path, in key order.
    pub apps: TextMap<AppConfig>,
    /// Use turborepo for multi-app orchestration.
    pub turbo: Option<bool>,
}

impl Default for PortlessConfig {
    /// A configuration with nothing set.
    fn default() -> (c: Self)
        ensures
            c.name is None,
            c.script is None,
            c.app_port is None,
            c.proxy is None,
            c.apps.map().len() == 0,
            c.apps.entries_seq().len() == 0,
            c.turbo is None,
    {
        PortlessConfig::empty()
    }
}

/// The name of a top-level `portless.json` entry in [`PortlessConfig::all_apps`].
pub open spec fn top_level_name() -> Seq<char> {
    seq!['.']
}

impl PortlessConfig {
    /// A configuration with nothing set.
    pub fn empty() -> (c: Self)
        ensures
            c.name is None,
            c.script is None,
            c.app_port is None,
            c.proxy is None,
            c.apps.map().len() == 0,
            c.apps.entries_seq().len() == 0,
            c.turbo is None,
    {
        let apps = TextMap::new();
        assert(apps.map() =~= Map::<Seq<char>, AppConfig>::empty());
        PortlessConfig { name: None, script: None, app_port: None, proxy: None, apps, turbo: None }
    }

    /// The configuration that a `package.json` "portless" key gives: its
    /// fields at the top level, no per-app entries.
    pub fn from_app_config(app: AppConfig) -> (c: Self)
        ensures
            opt_view(c.name) == app@.0,
            opt_view(c.script) == app@.1,
            c.app_port == app@.2,
            c.proxy == app@.3,
            c.apps.map().len() == 0,
            c.apps.entries_seq().len() == 0,
            c.turbo is None,
    {
        let apps = TextMap::new();
        assert(apps.map() =~= Map::<Seq<char>, AppConfig>::empty());
        PortlessConfig {
            name: app.name,
            script: app.script,
            app_port: app.app_port,
            proxy: app.proxy,
            apps,
            turbo: None,
        }
    }

    /// The effective name: the configured name, else the short form of the
    /// package name, else the directory's name, else `app`.
    pub fn effective_name(&self, package_name: Option<&str>, dir_name: Option<&str>) -> (r: String)
        ensures
            r@ == match self.name {
                Some(n) => n@,
                None => match package_name {
                    Some(p) => short_name(p@),
                    None => match dir_name {
                        Some(d) => d@,
                        None => "app"@,
                    },
                },
            },
    {
        match &self.name {
            Some(n) => n.clone(),
            None => match package_name {
                Some(p) => short_package_name(p),
                None => match dir_name {
                    Some(d) => owned(d),
                    None => owned("app"),
                },
            },
        }
    }

    /// The effective default script: the configured one, else `dev`.
    pub fn effective_script(&self) -> (r: String)
        ensures
            r@ == match self.script {
                Some(s) => s@,
                None => "dev"@,
            },
    {
        match &self.script {
            Some(s) => s.clone(),
            None => owned("dev"),
        }
    }

    /// The per-app config for a given path.
    pub fn app_config(&self, path: &str) -> (r: Option<&AppConfig>)
        ensures
            r is Some <==> self.apps.map().contains_key(path@),
            r matches Some(c) ==> *c == self.apps.map()[path@],
    {
        self.apps.get(path)
    }

    /// The top-level fields as an app entry, when a name or script is set.
    pub open spec fn top_level_app(&self) -> Option<AppConfigView> {
        if self.name is Some || self.script is Some {
            Some((opt_view(self.name), opt_view(self.script), self.app_port, self.proxy))
        } else {
            None
        }
    }

    /// All configured apps: the per-app entries in path order, then the
    /// top-level configuration under `.` when it names an app or a script.
    pub fn all_apps(&self) -> (r: Vec<(String, AppConfig)>)
        ensures
            r@.len() == self.apps.entries_seq().len() + if self.top_level_app() is Some {
                1int
            } else {
                0int
            },
            forall|i: int|
                0 <= i < self.apps.entries_seq().len() ==> #[trigger] r@[i].0@
                    == self.apps.entries_seq()[i].0@ && r@[i].1@ == self.apps.entries_seq()[i].1@,
            self.top_level_app() matches Some(t) ==> r@.last().0@ == top_level_name()
                && r@.last().1@ == t,
    {
        let mut out: Vec<(String, AppConfig)> = Vec::new();
        let n = self.apps.len();
        let mut i: usize = 0;
        while i < n
            invariant
                n == self.apps.entries_seq().len(),
                i <= n,
                out@.len() == i,
                forall|j: int|
                    0 <= j < i ==> #[trigger] out@[j].0@ == self.apps.entries_seq()[j].0@
                        && out@[j].1@ == self.apps.entries_seq()[j].1@,
            decreases n - i,
        {
            let e = self.apps.entry(i);
            out.push((e.0.clone(), e.1.copy()));
            i += 1;
        }
        if self.name.is_some() || self.script.is_some() {
            let mut dot = String::new();
            dot.push('.');
            assert(dot@ =~= top_level_name());
            out.push(
                (
                    dot,
                    AppConfig {
                        name: clone_opt(&self.name),
                        script: clone_opt(&self.script),
                        app_port: self.app_port,
                        proxy: self.proxy,
                    },
                ),
            );
        }
        out
    }
}

/// A package.json "portless" key (string or object).
#[derive(Debug, Clone)]
pub enum PackageJsonPortlessKey {
    /// Shorthand: just a name.
    Shorthand(String),
    /// Full configuration.
    Object(AppConfig),
}

impl PackageJsonPortlessKey {
    /// Convert into an `AppConfig`: the shorthand names the app and sets
    /// nothing else.
    pub fn into_config(self) -> (c: AppConfig)
        ensures
            c@ == match self {
                PackageJsonPortlessKey::Shorthand(n) => (
                    Some(n@),
                    None::<Seq<char>>,
                    None::<u16>,
                    None::<bool>,
                ),
                PackageJsonPortlessKey::Object(o) => o@,
            },
    {
        match self {
            PackageJsonPortlessKey::Shorthand(name) => AppConfig {
                name: Some(name),
                script: None,
                app_port: None,
                proxy: None,
            },
            PackageJsonPortlessKey::Object(c) => c,
        }
    }
}

/// Workspaces can be either a list of patterns or `{ packages: [...] }`.
#[derive(Debug, Clone)]
pub enum WorkspacesField {
    /// `["packages/*", "apps/*"]`.
    List(Vec<String>),
    /// `{ "packages": ["packages/*"] }`.
    Object {
        /// The list of workspace globs.
        packages: Vec<String>,
    },
}

impl WorkspacesField {
    /// Extract the list of globs.
    pub fn patterns(&self) -> (r: &[String])
        ensures
            r@ == match self {
                WorkspacesField::List(v) => v@,
                WorkspacesField::Object { packages } => packages@,
            },
    {
        match self {
            WorkspacesField::List(v) => v.as_slice(),
            WorkspacesField::Object { packages } => packages.as_slice(),
        }
    }
}

/// Raw package.json structure (just the fields the discovery reads).
#[derive(Debug)]
pub struct PackageJsonShape {
    /// Package name.
    pub name: Option<String>,
    /// The "portless" key, if present.
    pub portless: Option<PackageJsonPortlessKey>,
    /// Workspaces (npm/yarn classic).
    pub workspaces: Option<WorkspacesField>,
    /// Scripts, by name.
    pub scripts: TextMap<String>,
    /// Package manager field (e.g. "pnpm@9.0.0").
    pub package_manager: Option<String>,
}

/// A discovered workspace package.
#[derive(Debug, Clone)]
pub struct WorkspacePackage {
    /// Path relative to the workspace root (forward slashes).
    pub path: String,
    /// Absolute path to the package directory.
    pub absolute: String,
    /// Package name (from package.json).
    pub name: Option<String>,
    /// Per-app config (from portless.json apps map).
    pub config: AppConfig,
}

/// The part of a scoped npm name after `@`, when it has a `/`.
pub open spec fn scoped(name: Seq<char>) -> bool {
    name.len() > 0 && name[0] == '@' && has_char(name.drop_first(), '/')
}

/// The short name of an npm package: `@scope/short` gives `short` (the
/// text after the first `/`); any other name is its own short name.
pub open spec fn short_name(name: Seq<char>) -> Seq<char> {
    if scoped(name) {
        let rest = name.drop_first();
        rest.skip(first_index(rest, '/') + 1)
    } else {
        name
    }
}

/// The scope of an npm package: `@scope/short` gives `scope`.
pub open spec fn scope_of(name: Seq<char>) -> Option<Seq<char>> {
    if scoped(name) {
        let rest = name.drop_first();
        Some(rest.take(first_index(rest, '/')))
    } else {
        None
    }
}

/// Where the first `/` after a leading `@` is, if the name is scoped.
fn scope_slash(v: &Vec<char>) -> (r: Option<usize>)
    ensures
        match r {
            Some(k) => scoped(v@) && 1 <= k < v@.len() && k - 1 == first_index(v@.drop_first(), '/'),
            None => !scoped(v@),
        },
{
    if v.len() == 0 || v[0] != '@' {
        return None;
    }
    let k = find_char(v, '/');
    proof {
        lemma_first_index(v@, '/');
        lemma_first_index(v@.drop_first(), '/');
        if has_char(v@.drop_first(), '/') {
            let j = choose|j: int| 0 <= j < v@.len() - 1 && v@.drop_first()[j] == '/';
            assert(v@[j + 1] == '/');
        }
        if k < v@.len() {
            assert(v@.drop_first()[k - 1] == '/');
            assert forall|j: int| 0 <= j < k - 1 implies v@.drop_first()[j] != '/' by {
                assert(v@.drop_first()[j] == v@[j + 1]);
            }
        }
    }
    if k == v.len() {
        None
    } else {
        Some(k)
    }
}

/// Extract the short name from an npm package name.
///
/// `@myorg/web` → `web`
/// `myorg-web` → `myorg-web`
pub fn short_package_name(name: &str) -> (r: String)
    ensures
        r@ == short_name(name@),
{
    let v = chars_of(name);
    match scope_slash(&v) {
        Some(k) => {
            let r = string_of_range(&v, k + 1, v.len());
            assert(v@.subrange(k + 1, v@.len() as int) =~= v@.drop_first().skip(k as int));
            r
        },
        None => owned(name),
    }
}

/// Extract the scope from an npm package name.
pub fn npm_scope(name: &str) -> (r: Option<String>)
    ensures
        match scope_of(name@) {
            Some(s) => r is Some && r->Some_0@ == s,
            None => r is None,
        },
{
    let v = chars_of(name);
    match scope_slash(&v) {
        Some(k) => {
            let r = string_of_range(&v, 1, k);
            assert(v@.subrange(1, k as int) =~= v@.drop_first().take(k - 1));
            Some(r)
        },
        None => None,
    }
}

} // verus!
