//! Log file rotation for child-process output: the names of the rotated
//! files and the moves that rotate them.
//!
//! When a live log `<log>.log` grows past [`MAX_LOG_SIZE`] bytes it becomes
//! `<log>.1.log`; the previous `<log>.1.log` becomes `<log>.2.log`; and so
//! on up to [`MAX_LOG_FILES`] (3). Any older file is deleted.

use vstd::prelude::*;
use crate::platform::paths::{join, path_join};
use crate::text::{chars_of, decimal, decimal_string, owned, push_str, string_of_range};

verus! {

/// Default cap (in bytes) before a log is rotated. 10 MiB.
pub const MAX_LOG_SIZE: u64 = 10485760;

/// Default number of rotated log files to retain (in addition to the live
/// log). 3 → at most 4 files (live + 3 rotated) per app.
pub const MAX_LOG_FILES: usize = 3;

/// Whether a log of `len` bytes is due for rotation.
pub fn needs_rotation(len: u64) -> (r: bool)
    ensures
        r == (len >= MAX_LOG_SIZE),
{
    len >= MAX_LOG_SIZE
}

/// `p` without trailing `/`s, unless it is all `/`s.
pub open spec fn strip_trailing_slashes(p: Seq<char>) -> Seq<char>
    decreases p.len(),
{
    if p.len() > 1 && p.last() == '/' {
        strip_trailing_slashes(p.drop_last())
    } else {
        p
    }
}

/// The index of the last `c` in `s`, or -1.
pub open spec fn last_index(s: Seq<char>, c: char) -> int
    decreases s.len(),
{
    if s.len() == 0 {
        -1
    } else if s.last() == c {
        s.len() - 1
    } else {
        last_index(s.drop_last(), c)
    }
}

/// The last component of a path and the directory before it, as text:
/// `(None, name)` for a path without `/`, `(Some("/"), name)` under the
/// root.
pub open spec fn split_path(p: Seq<char>) -> (Option<Seq<char>>, Seq<char>) {
    let t = strip_trailing_slashes(p);
    let k = last_index(t, '/');
    if k < 0 {
        (None, t)
    } else {
        let dir = strip_trailing_slashes(t.take(k));
        (Some(if dir.len() == 0 { seq!['/'] } else { dir }), t.skip(k + 1))
    }
}

/// A name that is a file (`Path::file_name` gives it): not empty, `.`,
/// `..`, or `/`.
pub open spec fn is_file_name(n: Seq<char>) -> bool {
    n.len() > 0 && n != seq!['.'] && n != seq!['.', '.'] && n != seq!['/']
}

/// The stem and extension of a file name (`Path::file_stem`,
/// `Path::extension`): split at the last `.`, unless that `.` begins the
/// name; a missing extension reads as `log`.
pub open spec fn stem_ext(n: Seq<char>) -> (Seq<char>, Seq<char>) {
    let k = last_index(n, '.');
    if k <= 0 {
        (n, "log"@)
    } else {
        (n.take(k), n.skip(k + 1))
    }
}

/// The path of the `index`-th rotated log: `.index` inserted before the
/// extension, in the same directory (`.` when the path has none).
pub open spec fn rotated(p: Seq<char>, index: nat) -> Seq<char> {
    let (dir, name) = split_path(p);
    let (stem, ext) = if is_file_name(name) {
        stem_ext(name)
    } else {
        ("log"@, "log"@)
    };
    let parent = match dir {
        Some(d) => d,
        None => if p.len() == 0 || name == seq!['/'] {
            seq!['.']
        } else {
            Seq::empty()
        },
    };
    path_join(parent, stem + seq!['.'] + decimal(index) + seq!['.'] + ext)
}

/// The position just past the last `c` in `v[..n]`, or 0.
fn after_last(v: &Vec<char>, n: usize, c: char) -> (k: usize)
    requires
        n <= v@.len(),
    ensures
        k <= n,
        k == last_index(v@.take(n as int), c) + 1,
{
    let mut i = n;
    while i > 0 && v[i - 1] != c
        invariant
            i <= n <= v@.len(),
            last_index(v@.take(n as int), c) == last_index(v@.take(i as int), c),
        decreases i,
    {
        assert(v@.take(i as int).drop_last() == v@.take(i - 1));
        assert(v@.take(i as int).last() == v@[i - 1]);
        i -= 1;
    }
    if i > 0 {
        assert(v@.take(i as int).last() == v@[i - 1]);
    }
    i
}

/// The length of `v[..n]` without trailing `/`s (keeping one when all are).
fn strip_slashes_len(v: &Vec<char>, n: usize) -> (m: usize)
    requires
        n <= v@.len(),
    ensures
        m <= n,
        v@.take(m as int) == strip_trailing_slashes(v@.take(n as int)),
{
    let mut m = n;
    while m > 1 && v[m - 1] == '/'
        invariant
            m <= n <= v@.len(),
            strip_trailing_slashes(v@.take(m as int)) == strip_trailing_slashes(v@.take(n as int)),
        decreases m,
    {
        assert(v@.take(m as int).drop_last() == v@.take(m - 1));
        assert(v@.take(m as int).last() == v@[m - 1]);
        m -= 1;
    }
    if m > 1 {
        assert(v@.take(m as int).last() == v@[m - 1]);
    }
    m
}

/// The directory and last component of a path, as [`split_path`] reads
/// them.
fn path_parts(v: &Vec<char>) -> (r: (Option<String>, Vec<char>))
    ensures
        match split_path(v@).0 {
            Some(d) => r.0 is Some && r.0->Some_0@ == d,
            None => r.0 is None,
        },
        r.1@ == split_path(v@).1,
{
    let tn = strip_slashes_len(v, v.len());
    assert(v@.take(v@.len() as int) == v@);
    let ghost t = v@.take(tn as int);
    let k = after_last(v, tn, '/');
    let name_v = chars_of(string_of_range(v, k, tn).as_str());
    assert(v@.subrange(k as int, tn as int) == t.skip(k as int));
    if k == 0 {
        (None, name_v)
    } else {
        let dn = strip_slashes_len(v, k - 1);
        assert(v@.take(k - 1) == t.take(k - 1));
        if dn == 0 {
            let mut s = String::new();
            s.push('/');
            assert(s@ =~= seq!['/']);
            (Some(s), name_v)
        } else {
            let d = string_of_range(v, 0, dn);
            assert(v@.subrange(0, dn as int) == v@.take(dn as int));
            (Some(d), name_v)
        }
    }
}

/// The stem and extension of a last component (`log` and `log` when it is
/// not a file name).
fn stem_and_ext(name_v: &Vec<char>) -> (r: (String, String))
    ensures
        (r.0@, r.1@) == if is_file_name(name_v@) {
            stem_ext(name_v@)
        } else {
            ("log"@, "log"@)
        },
{
    let dot = chars_of(".");
    let dotdot = chars_of("..");
    let slash = chars_of("/");
    proof {
        reveal_strlit(".");
        reveal_strlit("..");
        reveal_strlit("/");
    }
    assert(dot@ == seq!['.'] && dotdot@ == seq!['.', '.'] && slash@ == seq!['/']);
    let file = name_v.len() > 0 && !crate::text::seq_eq(name_v, &dot) && !crate::text::seq_eq(
        name_v,
        &dotdot,
    ) && !crate::text::seq_eq(name_v, &slash);
    if file {
        let j = after_last(name_v, name_v.len(), '.');
        assert(name_v@.take(name_v@.len() as int) == name_v@);
        assert(name_v@.subrange(0, name_v@.len() as int) == name_v@);
        if j <= 1 {
            (string_of_range(name_v, 0, name_v.len()), owned("log"))
        } else {
            let s = string_of_range(name_v, 0, j - 1);
            let e = string_of_range(name_v, j, name_v.len());
            assert(name_v@.subrange(0, j - 1) == name_v@.take(j - 1));
            assert(name_v@.subrange(j as int, name_v@.len() as int) == name_v@.skip(j as int));
            (s, e)
        }
    } else {
        (owned("log"), owned("log"))
    }
}

/// Return the path of the Nth rotated log file (N=1 → `<log>.1.log`, etc.).
pub fn rotated_path(path: &str, index: usize) -> (r: String)
    ensures
        r@ == rotated(path@, index as nat),
{
    let v = chars_of(path);
    let (dir, name_v) = path_parts(&v);
    let (stem, ext) = stem_and_ext(&name_v);
    let slash = chars_of("/");
    proof {
        reveal_strlit("/");
    }
    assert(slash@ == seq!['/']);
    let parent = match dir {
        Some(d) => d,
        None => if v.len() == 0 || crate::text::seq_eq(&name_v, &slash) {
            owned(".")
        } else {
            String::new()
        },
    };
    proof {
        reveal_strlit(".");
    }
    assert("."@ == seq!['.']);
    let mut file_name = stem;
    file_name.push('.');
    let n = decimal_string(index as u64);
    push_str(&mut file_name, n.as_str());
    file_name.push('.');
    push_str(&mut file_name, ext.as_str());
    join(parent.as_str(), file_name.as_str())
}

/// The paths that rotation touches, oldest first: the rotated file that is
/// deleted, then each `(from, to)` rename, the live log's last.
pub fn rotation_plan(path: &str) -> (r: (String, Vec<(String, String)>))
    ensures
        r.0@ == rotated(path@, 3),
        r.1@.len() == 3,
        r.1@[0].0@ == rotated(path@, 2) && r.1@[0].1@ == rotated(path@, 3),
        r.1@[1].0@ == rotated(path@, 1) && r.1@[1].1@ == rotated(path@, 2),
        r.1@[2].0@ == path@ && r.1@[2].1@ == rotated(path@, 1),
{
    let oldest = rotated_path(path, MAX_LOG_FILES);
    let mut moves: Vec<(String, String)> = Vec::new();
    moves.push((rotated_path(path, 2), rotated_path(path, 3)));
    moves.push((rotated_path(path, 1), rotated_path(path, 2)));
    moves.push((owned(path), rotated_path(path, 1)));
    (oldest, moves)
}

/// The live log and each of its rotated files, for purging or sizing.
pub fn log_family(path: &str) -> (r: Vec<String>)
    ensures
        r@.len() == 4,
        r@[0]@ == path@,
        r@[1]@ == rotated(path@, 1),
        r@[2]@ == rotated(path@, 2),
        r@[3]@ == rotated(path@, 3),
{
    let mut r: Vec<String> = Vec::new();
    r.push(owned(path));
    r.push(rotated_path(path, 1));
    r.push(rotated_path(path, 2));
    r.push(rotated_path(path, 3));
    r
}

} // verus!
