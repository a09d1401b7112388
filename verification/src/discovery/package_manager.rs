//! Package manager detection.

use vstd::prelude::*;
use crate::discovery::framework::{has, has_name};
use crate::discovery::json::{json_str_at, json_string_field};
use crate::text::{lower_seq, owned, starts_with, to_lower};

verus! {

/// Detected package manager.
#[derive(Debug, Clone, Copy, PartialEq, Eq, Structural)]
pub enum PackageManager {
    /// pnpm.
    Pnpm,
    /// npm.
    Npm,
    /// yarn (classic or berry).
    Yarn,
    /// bun.
    Bun,
    /// deno.
    Deno,
}

/// The CLI name used to run scripts.
pub open spec fn runner_name(pm: PackageManager) -> Seq<char> {
    match pm {
        PackageManager::Pnpm => "pnpm"@,
        PackageManager::Npm => "npm"@,
        PackageManager::Yarn => "yarn"@,
        PackageManager::Bun => "bun"@,
        PackageManager::Deno => "deno"@,
    }
}

/// The package manager named by a `packageManager` field (such as
/// `pnpm@9.0.0`), by the start of its lower-cased text.
pub open spec fn from_field(field: Seq<char>) -> Option<PackageManager> {
    let l = lower_seq(field);
    if starts_with(l, "pnpm"@) {
        Some(PackageManager::Pnpm)
    } else if starts_with(l, "yarn"@) {
        Some(PackageManager::Yarn)
    } else if starts_with(l, "bun"@) {
        Some(PackageManager::Bun)
    } else if starts_with(l, "npm"@) {
        Some(PackageManager::Npm)
    } else if starts_with(l, "deno"@) {
        Some(PackageManager::Deno)
    } else {
        None
    }
}

/// The package manager that the first parent directory holding a pnpm,
/// yarn or bun lockfile points to, nearest parent first.
pub open spec fn parent_lock(parents: Seq<Seq<String>>) -> Option<PackageManager>
    decreases parents.len(),
{
    if parents.len() == 0 {
        None
    } else {
        let n = parents[0];
        if has_name(n, "pnpm-lock.yaml"@) {
            Some(PackageManager::Pnpm)
        } else if has_name(n, "yarn.lock"@) {
            Some(PackageManager::Yarn)
        } else if has_name(n, "bun.lock"@) || has_name(n, "bun.lockb"@) {
            Some(PackageManager::Bun)
        } else {
            parent_lock(parents.drop_first())
        }
    }
}

/// The package manager that a project's files point to, in this order: the
/// `packageManager` field; pnpm's lockfile or workspace file; `yarn.lock`;
/// bun's lockfiles; deno's lockfile or config; `package-lock.json`; a
/// pnpm, yarn or bun lockfile in a parent directory (nearest first);
/// `node_modules/.pnpm`; else npm.
pub open spec fn detect_spec(field: Option<Seq<char>>, names: Seq<String>, parents: Seq<Seq<String>>) -> PackageManager {
    let by_field = match field {
        Some(f) => from_field(f),
        None => None,
    };
    match by_field {
        Some(pm) => pm,
        None => if has_name(names, "pnpm-lock.yaml"@) || has_name(names, "pnpm-workspace.yaml"@) {
            PackageManager::Pnpm
        } else if has_name(names, "yarn.lock"@) {
            PackageManager::Yarn
        } else if has_name(names, "bun.lock"@) || has_name(names, "bun.lockb"@) {
            PackageManager::Bun
        } else if has_name(names, "deno.lock"@) || has_name(names, "deno.json"@) {
            PackageManager::Deno
        } else if has_name(names, "package-lock.json"@) {
            PackageManager::Npm
        } else {
            match parent_lock(parents) {
                Some(pm) => pm,
                None => if has_name(names, "node_modules/.pnpm"@) {
                    PackageManager::Pnpm
                } else {
                    PackageManager::Npm
                },
            }
        },
    }
}

/// The names of each parent directory.
pub open spec fn names_of(parents: Seq<Vec<String>>) -> Seq<Seq<String>> {
    parents.map_values(|v: Vec<String>| v@)
}

/// The `packageManager` field that a `package.json`'s bytes give, if any.
pub open spec fn field_of(package_json: Option<Seq<u8>>) -> Option<Seq<char>> {
    match package_json {
        Some(b) => match json_string_field(b, "packageManager"@) {
            Some(Some(f)) => Some(f),
            _ => None,
        },
        None => None,
    }
}

/// The command that runs a script: `<runner> run <script>` (`deno task`
/// for deno), then the extra arguments.
pub open spec fn run_command_spec(pm: PackageManager, script: Seq<char>, extra: Seq<Seq<char>>) -> Seq<
    Seq<char>,
> {
    let verb = if pm == PackageManager::Deno {
        "task"@
    } else {
        "run"@
    };
    seq![runner_name(pm), verb, script] + extra
}

/// Whether `s` starts with `p`.
fn str_starts_with(s: &str, p: &str) -> (r: bool)
    ensures
        r == starts_with(s@, p@),
{
    let v = crate::text::chars_of(s);
    let w = crate::text::chars_of(p);
    crate::text::vec_starts_with(&v, &w)
}

impl PackageManager {
    /// The CLI name used to run scripts.
    pub fn runner(self) -> (r: &'static str)
        ensures
            r@ == runner_name(self),
    {
        match self {
            PackageManager::Pnpm => "pnpm",
            PackageManager::Npm => "npm",
            PackageManager::Yarn => "yarn",
            PackageManager::Bun => "bun",
            PackageManager::Deno => "deno",
        }
    }

    /// The package manager named by a `packageManager` field, if any.
    pub fn from_package_manager_field(field: &str) -> (r: Option<Self>)
        ensures
            r == from_field(field@),
    {
        let l = to_lower(field);
        if str_starts_with(l.as_str(), "pnpm") {
            Some(PackageManager::Pnpm)
        } else if str_starts_with(l.as_str(), "yarn") {
            Some(PackageManager::Yarn)
        } else if str_starts_with(l.as_str(), "bun") {
            Some(PackageManager::Bun)
        } else if str_starts_with(l.as_str(), "npm") {
            Some(PackageManager::Npm)
        } else if str_starts_with(l.as_str(), "deno") {
            Some(PackageManager::Deno)
        } else {
            None
        }
    }

    /// Detect the package manager of a project from its `packageManager`
    /// field, the names present in its directory (`node_modules/.pnpm`
    /// among them when that directory exists) and the names present in each
    /// parent directory, nearest first.
    pub fn detect_in(field: Option<&str>, names: &Vec<String>, parents: &Vec<Vec<String>>) -> (r: Self)
        ensures
            r == detect_spec(
                match field {
                    Some(f) => Some(f@),
                    None => None,
                },
                names@,
                names_of(parents@),
            ),
    {
        let by_field = match field {
            Some(f) => PackageManager::from_package_manager_field(f),
            None => None,
        };
        match by_field {
            Some(pm) => pm,
            None => if has(names, "pnpm-lock.yaml") || has(names, "pnpm-workspace.yaml") {
                PackageManager::Pnpm
            } else if has(names, "yarn.lock") {
                PackageManager::Yarn
            } else if has(names, "bun.lock") || has(names, "bun.lockb") {
                PackageManager::Bun
            } else if has(names, "deno.lock") || has(names, "deno.json") {
                PackageManager::Deno
            } else if has(names, "package-lock.json") {
                PackageManager::Npm
            } else {
                match Self::from_parents(parents) {
                    Some(pm) => pm,
                    None => if has(names, "node_modules/.pnpm") {
                        PackageManager::Pnpm
                    } else {
                        PackageManager::Npm
                    },
                }
            },
        }
    }

    /// The package manager that a lockfile in a parent directory points to.
    fn from_parents(parents: &Vec<Vec<String>>) -> (r: Option<Self>)
        ensures
            r == parent_lock(names_of(parents@)),
    {
        let ghost ps = names_of(parents@);
        assert(ps.skip(0) =~= ps);
        let mut i: usize = 0;
        while i < parents.len()
            invariant
                i <= parents@.len(),
                ps == names_of(parents@),
                parent_lock(ps) == parent_lock(ps.skip(i as int)),
            decreases parents.len() - i,
        {
            let n = &parents[i];
            assert(ps.skip(i as int)[0] == n@);
            assert(ps.skip(i as int).drop_first() =~= ps.skip(i + 1));
            if has(n, "pnpm-lock.yaml") {
                return Some(PackageManager::Pnpm);
            } else if has(n, "yarn.lock") {
                return Some(PackageManager::Yarn);
            } else if has(n, "bun.lock") || has(n, "bun.lockb") {
                return Some(PackageManager::Bun);
            }
            i += 1;
        }
        assert(ps.skip(i as int).len() == 0);
        None
    }

    /// Detect the package manager from the bytes of a project's
    /// `package.json` (when it could be read), the names in its directory
    /// and the names in each parent directory, nearest first.
    pub fn detect_from(package_json: Option<&[u8]>, names: &Vec<String>, parents: &Vec<Vec<String>>) -> (r: Self)
        ensures
            r == detect_spec(
                field_of(
                    match package_json {
                        Some(b) => Some(b@),
                        None => None,
                    },
                ),
                names@,
                names_of(parents@),
            ),
    {
        let field = match package_json {
            Some(b) => match json_str_at(b, "packageManager") {
                Some(Some(f)) => Some(f),
                _ => None,
            },
            None => None,
        };
        match field {
            Some(f) => Self::detect_in(Some(f.as_str()), names, parents),
            None => Self::detect_in(None, names, parents),
        }
    }

    /// Construct the command to run a script.
    ///
    /// For example, `pnpm run dev`, `npm run dev`, `bun run dev`.
    pub fn run_command(self, script: &str, extra_args: &[String]) -> (cmd: Vec<String>)
        ensures
            cmd@.map_values(|s: String| s@) == run_command_spec(
                self,
                script@,
                extra_args@.map_values(|s: String| s@),
            ),
    {
        let mut cmd: Vec<String> = Vec::new();
        cmd.push(owned(self.runner()));
        match self {
            PackageManager::Deno => cmd.push(owned("task")),
            _ => cmd.push(owned("run")),
        }
        cmd.push(owned(script));
        let ghost head = cmd@.map_values(|s: String| s@);
        assert(head =~= run_command_spec(self, script@, Seq::empty()));
        let mut i: usize = 0;
        while i < extra_args.len()
            invariant
                i <= extra_args@.len(),
                head == seq![runner_name(self), if self == PackageManager::Deno {
                    "task"@
                } else {
                    "run"@
                }, script@],
                cmd@.map_values(|s: String| s@) == head + extra_args@.take(i as int).map_values(
                    |s: String| s@,
                ),
            decreases extra_args.len() - i,
        {
            let ghost prev = cmd@;
            let c = extra_args[i].clone();
            assert(c@ == extra_args@[i as int]@);
            cmd.push(c);
            assert(extra_args@.take(i + 1) == extra_args@.take(i as int).push(extra_args@[i as int]));
            assert(cmd@.map_values(|s: String| s@) =~= prev.map_values(|s: String| s@).push(c@));
            assert(cmd@.map_values(|s: String| s@) =~= head + extra_args@.take(i + 1).map_values(
                |s: String| s@,
            ));
            i += 1;
        }
        assert(extra_args@.take(extra_args@.len() as int) == extra_args@);
        cmd
    }
}

/// A `packageManager` field that names a manager decides, whatever files
/// are present.
pub proof fn lemma_field_wins(f: Seq<char>, names: Seq<String>, parents: Seq<Seq<String>>)
    requires
        from_field(f) is Some,
    ensures
        detect_spec(Some(f), names, parents) == from_field(f)->Some_0,
{
}

/// Without a field that names a manager, a pnpm lockfile or workspace file
/// in the directory means pnpm.
pub proof fn lemma_pnpm_files(field: Option<Seq<char>>, names: Seq<String>, parents: Seq<Seq<String>>)
    requires
        field is None || from_field(field->Some_0) is None,
        has_name(names, "pnpm-lock.yaml"@) || has_name(names, "pnpm-workspace.yaml"@),
    ensures
        detect_spec(field, names, parents) == PackageManager::Pnpm,
{
}

/// Without a field that names a manager and without pnpm's files,
/// `yarn.lock` in the directory means yarn.
pub proof fn lemma_yarn_lock(field: Option<Seq<char>>, names: Seq<String>, parents: Seq<Seq<String>>)
    requires
        field is None || from_field(field->Some_0) is None,
        !has_name(names, "pnpm-lock.yaml"@),
        !has_name(names, "pnpm-workspace.yaml"@),
        has_name(names, "yarn.lock"@),
    ensures
        detect_spec(field, names, parents) == PackageManager::Yarn,
{
}

/// With no field and no lockfile or marker anywhere, the answer is npm.
pub proof fn lemma_npm_default(names: Seq<String>)
    requires
        forall|i: int| 0 <= i < names.len() ==> !(#[trigger] names[i]@ == "pnpm-lock.yaml"@
            || names[i]@ == "pnpm-workspace.yaml"@ || names[i]@ == "yarn.lock"@ || names[i]@
            == "bun.lock"@ || names[i]@ == "bun.lockb"@ || names[i]@ == "deno.lock"@ || names[i]@
            == "deno.json"@ || names[i]@ == "node_modules/.pnpm"@),
    ensures
        detect_spec(None, names, Seq::empty()) == PackageManager::Npm,
{
}

} // verus!
