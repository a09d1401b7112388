//! Git worktree detection: what git's answers say about a checkout, and
//! the hostname prefix a linked worktree gets.

use vstd::prelude::*;
use crate::platform::paths::{components, join, path_components, path_join};
use crate::routing::hostname::{sanitize, sanitize_label};
use crate::text::{chars_of, seq_eq, trim, trimmed};

verus! {

/// Information about a git worktree.
#[derive(Debug, Clone)]
pub struct WorktreeInfo {
    /// Absolute path to the worktree.
    pub path: String,
    /// The branch name (e.g. `feature/login`).
    pub branch: Option<String>,
    /// Whether this worktree is the main checkout.
    pub is_main: bool,
    /// The git common dir (shared between worktrees).
    pub common_dir: String,
    /// The git dir (per-worktree `.git`).
    pub git_dir: String,
}

/// A git directory as `rev-parse` prints it, resolved against the
/// top-level directory: used as is when absolute, else joined on.
pub open spec fn git_path(toplevel: Seq<char>, out: Seq<char>) -> Seq<char> {
    if out.len() > 0 && out[0] == '/' {
        trimmed(out)
    } else {
        path_join(toplevel, trimmed(out))
    }
}

/// Two paths are equal component by component (`PathBuf`'s `==`).
pub open spec fn same_path(a: Seq<char>, b: Seq<char>) -> bool {
    components(a) == components(b)
}

/// A git directory resolved against the top-level directory.
pub fn resolve_git_path(toplevel: &str, out: &str) -> (r: String)
    ensures
        r@ == git_path(toplevel@, out@),
{
    let v = chars_of(out);
    let t = trim(out);
    if v.len() > 0 && v[0] == '/' {
        t
    } else {
        join(toplevel, t.as_str())
    }
}

/// Whether two paths are equal component by component.
pub fn paths_equal(a: &str, b: &str) -> (r: bool)
    ensures
        r == same_path(a@, b@),
{
    let x = path_components(a);
    let y = path_components(b);
    let ghost xv = x@.map_values(|v: Vec<char>| v@);
    let ghost yv = y@.map_values(|v: Vec<char>| v@);
    if x.len() != y.len() {
        assert(xv.len() != yv.len());
        return false;
    }
    let mut i: usize = 0;
    while i < x.len()
        invariant
            x@.len() == y@.len(),
            i <= x@.len(),
            xv == x@.map_values(|v: Vec<char>| v@),
            yv == y@.map_values(|v: Vec<char>| v@),
            forall|j: int| 0 <= j < i ==> xv[j] == yv[j],
            xv == components(a@),
            yv == components(b@),
        decreases x.len() - i,
    {
        if !seq_eq(&x[i], &y[i]) {
            assert(xv[i as int] == x@[i as int]@ && yv[i as int] == y@[i as int]@);
            assert(xv[i as int] != yv[i as int]);
            return false;
        }
        i += 1;
    }
    assert(xv =~= yv);
    true
}

impl WorktreeInfo {
    /// The worktree that git's answers describe: the top level (trimmed),
    /// the common and per-worktree git directories resolved against it,
    /// and whether they are the same directory (the main checkout).
    pub fn from_git(
        toplevel_out: &str,
        common_out: &str,
        git_dir_out: &str,
        branch: Option<String>,
    ) -> (w: Self)
        ensures
            w.path@ == trimmed(toplevel_out@),
            w.common_dir@ == git_path(trimmed(toplevel_out@), common_out@),
            w.git_dir@ == git_path(trimmed(toplevel_out@), git_dir_out@),
            w.is_main == same_path(w.common_dir@, w.git_dir@),
            w.branch == branch,
    {
        let path = trim(toplevel_out);
        let common_dir = resolve_git_path(path.as_str(), common_out);
        let git_dir = resolve_git_path(path.as_str(), git_dir_out);
        let is_main = paths_equal(common_dir.as_str(), git_dir.as_str());
        WorktreeInfo { path, branch, is_main, common_dir, git_dir }
    }

    /// The sanitized prefix to prepend to hostnames: none for the main
    /// worktree or without a branch, else the branch as a DNS label.
    pub fn hostname_prefix(&self) -> (r: Option<String>)
        ensures
            self.is_main ==> r is None,
            !self.is_main ==> match self.branch {
                Some(b) => r is Some && r->Some_0@ == sanitize(b@),
                None => r is None,
            },
    {
        if self.is_main {
            return None;
        }
        match &self.branch {
            Some(b) => Some(sanitize_label(b.as_str())),
            None => None,
        }
    }
}

/// Worktree detection utilities.
#[derive(Debug)]
pub struct Worktree;

} // verus!
