//! Monorepo detection and workspace enumeration.

use vstd::prelude::*;
use crate::common::error::Error;
use crate::discovery::framework::{has, has_name};
use crate::routing::match_::{opt_view, strings_view};
use crate::text::{chars_of, ends_with, string_of_range, vec_ends_with};
use crate::text_map::TextMap;

verus! {

/// Detected monorepo / workspace kind.
#[derive(Debug, Clone, Copy, PartialEq, Eq, Structural)]
pub enum MonorepoKind {
    /// pnpm workspace (`pnpm-workspace.yaml`).
    Pnpm,
    /// npm workspaces (`workspaces` in package.json).
    Npm,
    /// yarn workspaces (`workspaces` in package.json, `yarn.lock` present).
    Yarn,
    /// bun workspaces (`workspaces` in package.json, `bun.lock` present).
    Bun,
}

/// The monorepo kind that a directory's names point to: a pnpm workspace
/// file; `yarn.lock` beside a `package.json`; a bun lockfile beside a
/// `package.json`; a `package.json` that declares workspaces.
pub open spec fn monorepo_spec(names: Seq<String>, declares_workspaces: bool) -> Option<MonorepoKind> {
    let pkg = has_name(names, "package.json"@);
    if has_name(names, "pnpm-workspace.yaml"@) {
        Some(MonorepoKind::Pnpm)
    } else if has_name(names, "yarn.lock"@) && pkg {
        Some(MonorepoKind::Yarn)
    } else if (has_name(names, "bun.lock"@) || has_name(names, "bun.lockb"@)) && pkg {
        Some(MonorepoKind::Bun)
    } else if pkg && declares_workspaces {
        Some(MonorepoKind::Npm)
    } else {
        None
    }
}

impl MonorepoKind {
    /// Detect the monorepo kind from the names present in a directory and
    /// whether its `package.json` parses and declares workspaces.
    pub fn detect_in(names: &Vec<String>, declares_workspaces: bool) -> (r: Result<Self, Error>)
        ensures
            match monorepo_spec(names@, declares_workspaces) {
                Some(k) => r == Ok::<MonorepoKind, Error>(k),
                None => r matches Err(Error::Config(m)) && m@ == "not a monorepo"@,
            },
    {
        let pkg = has(names, "package.json");
        if has(names, "pnpm-workspace.yaml") {
            Ok(MonorepoKind::Pnpm)
        } else if has(names, "yarn.lock") && pkg {
            Ok(MonorepoKind::Yarn)
        } else if (has(names, "bun.lock") || has(names, "bun.lockb")) && pkg {
            Ok(MonorepoKind::Bun)
        } else if pkg && declares_workspaces {
            Ok(MonorepoKind::Npm)
        } else {
            Err(Error::config("not a monorepo"))
        }
    }
}

/// `s` with every trailing `p` removed (`str::trim_end_matches`).
pub open spec fn trim_end_matches(s: Seq<char>, p: Seq<char>) -> Seq<char>
    decreases s.len(),
{
    if p.len() > 0 && ends_with(s, p) {
        trim_end_matches(s.take(s.len() - p.len()), p)
    } else {
        s
    }
}

/// The directory part of a workspace glob such as `apps/*` or `apps/**`.
pub open spec fn glob_dir(pattern: Seq<char>) -> Seq<char> {
    trim_end_matches(trim_end_matches(pattern, "/*"@), "/**"@)
}

/// `v[..n]` with every trailing `p` removed; the new length.
fn trim_end_len(v: &Vec<char>, p: &Vec<char>) -> (n: usize)
    ensures
        n <= v@.len(),
        v@.take(n as int) == trim_end_matches(v@, p@),
{
    let mut n = v.len();
    let mut cur = string_of_range(v, 0, n);
    let mut cv = chars_of(cur.as_str());
    assert(v@.take(n as int) == v@);
    while p.len() > 0 && vec_ends_with(&cv, p)
        invariant
            n <= v@.len(),
            cv@ == v@.take(n as int),
            trim_end_matches(cv@, p@) == trim_end_matches(v@, p@),
        decreases n,
    {
        let ghost old_cv = cv@;
        n = n - p.len();
        assert(trim_end_matches(old_cv, p@) == trim_end_matches(old_cv.take(old_cv.len() - p@.len()), p@));
        assert(old_cv.take(old_cv.len() - p@.len()) == v@.take(n as int));
        cur = string_of_range(v, 0, n);
        cv = chars_of(cur.as_str());
        assert(v@.subrange(0, n as int) == v@.take(n as int));
    }
    n
}

/// The directory part of a workspace glob: `apps/*` and `apps/**` give
/// `apps`.
pub fn glob_prefix(pattern: &str) -> (r: String)
    ensures
        r@ == glob_dir(pattern@),
{
    let v = chars_of(pattern);
    let one = chars_of("/*");
    let n = trim_end_len(&v, &one);
    let w = chars_of(string_of_range(&v, 0, n).as_str());
    assert(v@.subrange(0, n as int) == v@.take(n as int));
    let two = chars_of("/**");
    let m = trim_end_len(&w, &two);
    assert(w@.subrange(0, m as int) == w@.take(m as int));
    string_of_range(&w, 0, m)
}

/// `s` with each `\` turned into `/`.
pub open spec fn forward_slashes(s: Seq<char>) -> Seq<char> {
    s.map_values(|c: char| if c == '\\' { '/' } else { c })
}

/// A path with forward slashes only.
pub fn to_forward_slashes(s: &str) -> (r: String)
    ensures
        r@ == forward_slashes(s@),
{
    let v = chars_of(s);
    let mut r = String::new();
    let mut i: usize = 0;
    while i < v.len()
        invariant
            v@ == s@,
            i <= v@.len(),
            r@ == forward_slashes(v@.take(i as int)),
        decreases v.len() - i,
    {
        let c = v[i];
        if c == '\\' {
            r.push('/');
        } else {
            r.push(c);
        }
        assert(forward_slashes(v@.take(i + 1)) =~= forward_slashes(v@.take(i as int)).push(
            if c == '\\' { '/' } else { c },
        ));
        i += 1;
    }
    assert(v@.take(v@.len() as int) == v@);
    r
}

/// A discovered workspace package.
#[derive(Debug)]
pub struct Workspace {
    /// Path relative to the workspace root (with forward slashes).
    pub rel_path: String,
    /// Absolute path to the package directory.
    pub absolute: String,
    /// Package name (from package.json).
    pub name: Option<String>,
    /// Available scripts.
    pub scripts: TextMap<String>,
}

// ---------------------------------------------------------------------------
// Workspace globs of a pnpm workspace
// ---------------------------------------------------------------------------

/// What `serde_yaml` reads from `text` under the top-level `key`: the
/// parser's message when the text is not YAML; `None` when the document has
/// no sequence under `key`; else each item of that sequence, its string
/// when it is a string.
pub uninterp spec fn yaml_string_items(text: Seq<u8>, key: Seq<char>) -> Result<
    Option<Seq<Option<Seq<char>>>>,
    Seq<char>,
>;

/// The plain view of what [`yaml_sequence_strings`] returns.
pub open spec fn items_view(r: Result<Option<Vec<Option<String>>>, String>) -> Result<
    Option<Seq<Option<Seq<char>>>>,
    Seq<char>,
> {
    match r {
        Err(m) => Err(m@),
        Ok(None) => Ok(None),
        Ok(Some(v)) => Ok(Some(v@.map_values(|o: Option<String>| opt_view(o)))),
    }
}

/// Parses `bytes` with `serde_yaml::from_slice` into a `serde_yaml::Value`,
/// looks up `key` with `Value::get`, takes the sequence there with
/// `Value::as_sequence` and each item's `Value::as_str`. The contract only
/// names the result: what a YAML parser reads is not restated here.
#[verifier::external_body]
fn yaml_sequence_strings(bytes: &[u8], key: &str) -> (r: Result<Option<Vec<Option<String>>>, String>)
    ensures
        items_view(r) == yaml_string_items(bytes@, key@),
{
    let doc: serde_yaml::Value = serde_yaml::from_slice(bytes).map_err(|e| e.to_string())?;
    Ok(doc.get(key).and_then(|v| v.as_sequence()).map(
        |items| items.iter().map(|v| v.as_str().map(String::from)).collect(),
    ))
}

/// The strings among `items`, in order.
pub open spec fn present_strings(items: Seq<Option<Seq<char>>>) -> Seq<Seq<char>>
    decreases items.len(),
{
    if items.len() == 0 {
        Seq::empty()
    } else {
        match items.last() {
            Some(s) => present_strings(items.drop_last()).push(s),
            None => present_strings(items.drop_last()),
        }
    }
}

/// The globs that a pnpm workspace file's parsed contents give: a
/// configuration error naming the file when it did not parse, nothing when
/// it lists no packages, else the listed strings.
pub open spec fn pnpm_globs_spec(parsed: Result<Option<Seq<Option<Seq<char>>>>, Seq<char>>) -> Result<
    Seq<Seq<char>>,
    Seq<char>,
> {
    match parsed {
        Err(m) => Err("pnpm-workspace.yaml: "@ + m),
        Ok(None) => Ok(Seq::empty()),
        Ok(Some(items)) => Ok(present_strings(items)),
    }
}

/// The globs from what the YAML reader gave for `packages`.
pub fn pnpm_globs_from(parsed: Result<Option<Vec<Option<String>>>, String>) -> (r: Result<
    Vec<String>,
    Error,
>)
    ensures
        match pnpm_globs_spec(items_view(parsed)) {
            Ok(g) => r is Ok && strings_view(r->Ok_0@) == g,
            Err(m) => r matches Err(Error::Config(t)) && t@ == m,
        },
{
    match parsed {
        Err(m) => {
            let mut t = crate::text::owned("pnpm-workspace.yaml: ");
            crate::text::push_str(&mut t, m.as_str());
            proof {
                reveal_strlit("pnpm-workspace.yaml: ");
            }
            Err(Error::Config(t))
        },
        Ok(None) => {
            let out: Vec<String> = Vec::new();
            assert(strings_view(out@) =~= Seq::<Seq<char>>::empty());
            Ok(out)
        },
        Ok(Some(items)) => {
            let ghost iv = items@.map_values(|o: Option<String>| opt_view(o));
            let mut out: Vec<String> = Vec::new();
            let mut i: usize = 0;
            while i < items.len()
                invariant
                    i <= items@.len(),
                    iv == items@.map_values(|o: Option<String>| opt_view(o)),
                    strings_view(out@) == present_strings(iv.take(i as int)),
                decreases items.len() - i,
            {
                assert(iv.take(i + 1).drop_last() =~= iv.take(i as int));
                assert(iv.take(i + 1).last() == opt_view(items@[i as int]));
                match &items[i] {
                    Some(g) => {
                        let ghost prev = out@;
                        out.push(g.clone());
                        assert(strings_view(out@) =~= strings_view(prev).push(g@));
                    },
                    None => {},
                }
                i += 1;
            }
            assert(iv.take(items@.len() as int) =~= iv);
            Ok(out)
        },
    }
}

/// The workspace globs listed under `packages` in the text of a
/// `pnpm-workspace.yaml`.
pub fn pnpm_globs(bytes: &[u8]) -> (r: Result<Vec<String>, Error>)
    ensures
        match pnpm_globs_spec(yaml_string_items(bytes@, "packages"@)) {
            Ok(g) => r is Ok && strings_view(r->Ok_0@) == g,
            Err(m) => r matches Err(Error::Config(t)) && t@ == m,
        },
{
    let parsed = yaml_sequence_strings(bytes, "packages");
    pnpm_globs_from(parsed)
}

} // verus!
