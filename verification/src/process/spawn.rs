//! Spawning user commands with proxy-aware environment variables: what to
//! run and with which environment.
//!
//! ## Platform Notes
//!
//! ### Windows
//! On Windows, many common tools (`npm`, `pnpm`, `yarn`, `bun`, `deno`, etc.)
//! are installed as `.cmd` or `.bat` wrapper scripts, not native executables,
//! so every command is run through `cmd.exe /d /s /c "..."`, matching the
//! behaviour of Node.js `child_process.spawn({ shell: true })`.
//!
//! ### Unix
//! On Unix, shell scripts and version-manager shims (nvm, fnm, mise, asdf)
//! require `/bin/sh -c "..."` so that PATH and shell functions are resolved
//! correctly.

use vstd::prelude::*;
use crate::common::error::Error;
use crate::text::{
    IntoText, chars_of, has_char, joined, lower_seq, owned, push_str, split, split_vec, str_eq,
    string_of, to_lower, trim, trimmed,
};

verus! {

/// The parts of a [`Spawner`] as plain values.
pub struct SpawnerView {
    /// The program.
    pub program: Seq<char>,
    /// Positional arguments.
    pub args: Seq<Seq<char>>,
    /// Working directory.
    pub cwd: Option<Seq<char>>,
    /// Variables to set, in order.
    pub env: Seq<(Seq<char>, Seq<char>)>,
    /// Variables to remove.
    pub remove_env: Seq<Seq<char>>,
    /// Log file.
    pub log: Option<Seq<char>>,
    /// Force ANSI colour.
    pub force_color: bool,
    /// Inherit the parent's stdio.
    pub inherit_stdio: bool,
}

/// Builder for spawning a user command.
#[derive(Debug, Clone)]
pub struct Spawner {
    program: String,
    args: Vec<String>,
    cwd: Option<String>,
    env: Vec<(String, String)>,
    remove_env: Vec<String>,
    log: Option<String>,
    force_color: bool,
    inherit_stdio: bool,
}

/// The views of a list of strings.
pub open spec fn texts(v: Seq<String>) -> Seq<Seq<char>> {
    v.map_values(|s: String| s@)
}

/// The views of a list of string pairs.
pub open spec fn pair_texts(v: Seq<(String, String)>) -> Seq<(Seq<char>, Seq<char>)> {
    v.map_values(|p: (String, String)| (p.0@, p.1@))
}

/// The view of an optional string.
pub open spec fn opt_text(o: Option<String>) -> Option<Seq<char>> {
    match o {
        Some(s) => Some(s@),
        None => None,
    }
}

/// `names` without `k`.
pub open spec fn without(names: Seq<Seq<char>>, k: Seq<char>) -> Seq<Seq<char>>
    decreases names.len(),
{
    if names.len() == 0 {
        Seq::empty()
    } else if names.last() == k {
        without(names.drop_last(), k)
    } else {
        without(names.drop_last(), k).push(names.last())
    }
}

/// `pairs` without those whose name is `k`.
pub open spec fn without_key(pairs: Seq<(Seq<char>, Seq<char>)>, k: Seq<char>) -> Seq<
    (Seq<char>, Seq<char>),
>
    decreases pairs.len(),
{
    if pairs.len() == 0 {
        Seq::empty()
    } else if pairs.last().0 == k {
        without_key(pairs.drop_last(), k)
    } else {
        without_key(pairs.drop_last(), k).push(pairs.last())
    }
}

/// The builder after `env(k, v)`: `k` is no longer removed, and `(k, v)`
/// is set after everything set before.
pub open spec fn with_env(s: SpawnerView, k: Seq<char>, v: Seq<char>) -> SpawnerView {
    SpawnerView { env: s.env.push((k, v)), remove_env: without(s.remove_env, k), ..s }
}

/// The builder after `env` for each pair in turn.
pub open spec fn with_envs(s: SpawnerView, pairs: Seq<(Seq<char>, Seq<char>)>) -> SpawnerView
    decreases pairs.len(),
{
    if pairs.len() == 0 {
        s
    } else {
        let p = pairs.last();
        with_env(with_envs(s, pairs.drop_last()), p.0, p.1)
    }
}

/// `v` without the strings equal to `k`.
fn drop_name(v: Vec<String>, k: &str) -> (r: Vec<String>)
    ensures
        texts(r@) == without(texts(v@), k@),
{
    let ghost all = texts(v@);
    let mut r: Vec<String> = Vec::new();
    let mut v = v;
    let ghost orig = v@;
    let n = v.len();
    let mut i: usize = 0;
    while i < n
        invariant
            n == orig.len(),
            all == texts(orig),
            i <= n,
            v@ == orig.skip(i as int),
            texts(r@) == without(all.take(i as int), k@),
        decreases n - i,
    {
        let x = v.remove(0);
        assert(orig.skip(i as int).remove(0) == orig.skip(i + 1));
        assert(all.take(i + 1).drop_last() == all.take(i as int));
        assert(all.take(i + 1).last() == x@);
        let ghost prev = r@;
        if !str_eq(x.as_str(), k) {
            r.push(x);
            assert(texts(r@) =~= texts(prev).push(x@));
        }
        i += 1;
    }
    assert(all.take(n as int) == all);
    r
}

/// `v` without the pairs whose name is `k`.
fn drop_key(v: Vec<(String, String)>, k: &str) -> (r: Vec<(String, String)>)
    ensures
        pair_texts(r@) == without_key(pair_texts(v@), k@),
{
    let ghost all = pair_texts(v@);
    let mut r: Vec<(String, String)> = Vec::new();
    let mut v = v;
    let ghost orig = v@;
    let n = v.len();
    let mut i: usize = 0;
    while i < n
        invariant
            n == orig.len(),
            all == pair_texts(orig),
            i <= n,
            v@ == orig.skip(i as int),
            pair_texts(r@) == without_key(all.take(i as int), k@),
        decreases n - i,
    {
        let x = v.remove(0);
        assert(orig.skip(i as int).remove(0) == orig.skip(i + 1));
        assert(all.take(i + 1).drop_last() == all.take(i as int));
        assert(all.take(i + 1).last() == (x.0@, x.1@));
        let ghost prev = r@;
        if !str_eq(x.0.as_str(), k) {
            let ghost xv = (x.0@, x.1@);
            r.push(x);
            assert(pair_texts(r@) =~= pair_texts(prev).push(xv));
        }
        i += 1;
    }
    assert(all.take(n as int) == all);
    r
}

impl Spawner {
    /// The builder's parts.
    pub closed spec fn view(&self) -> SpawnerView {
        SpawnerView {
            program: self.program@,
            args: texts(self.args@),
            cwd: opt_text(self.cwd),
            env: pair_texts(self.env@),
            remove_env: texts(self.remove_env@),
            log: opt_text(self.log),
            force_color: self.force_color,
            inherit_stdio: self.inherit_stdio,
        }
    }

    /// Construct a new spawner for the given program: no arguments, no
    /// working directory, no variables, no log, inheriting stdio.
    pub fn new<S: IntoText>(program: S) -> (s: Self)
        ensures
            s.view() == (SpawnerView {
                program: program.text_view(),
                args: Seq::empty(),
                cwd: None,
                env: Seq::empty(),
                remove_env: Seq::empty(),
                log: None,
                force_color: false,
                inherit_stdio: true,
            }),
    {
        let s = Spawner {
            program: program.into_text(),
            args: Vec::new(),
            cwd: None,
            env: Vec::new(),
            remove_env: Vec::new(),
            log: None,
            force_color: false,
            inherit_stdio: true,
        };
        assert(texts(s.args@) =~= Seq::<Seq<char>>::empty());
        assert(pair_texts(s.env@) =~= Seq::<(Seq<char>, Seq<char>)>::empty());
        assert(texts(s.remove_env@) =~= Seq::<Seq<char>>::empty());
        s
    }

    /// Add a positional argument.
    pub fn arg<S: IntoText>(self, a: S) -> (s: Self)
        ensures
            s.view() == (SpawnerView { args: self.view().args.push(a.text_view()), ..self.view() }),
    {
        let mut s = self;
        let ghost before = s.args@;
        s.args.push(a.into_text());
        assert(texts(s.args@) =~= texts(before).push(a.text_view()));
        s
    }

    /// Add multiple positional arguments.
    pub fn args<S: IntoText>(self, args: Vec<S>) -> (s: Self)
        ensures
            s.view() == (SpawnerView {
                args: self.view().args + args@.map_values(|a: S| a.text_view()),
                ..self.view()
            }),
    {
        let mut s = self;
        let ghost start = s.view();
        let ghost all = args@.map_values(|a: S| a.text_view());
        let mut args = args;
        let ghost orig = args@;
        let n = args.len();
        let mut i: usize = 0;
        assert(start.args + all.take(0) =~= start.args);
        while i < n
            invariant
                n == orig.len(),
                all == orig.map_values(|a: S| a.text_view()),
                i <= n,
                args@ == orig.skip(i as int),
                s.view() == (SpawnerView { args: start.args + all.take(i as int), ..start }),
            decreases n - i,
        {
            let a = args.remove(0);
            assert(orig.skip(i as int).remove(0) == orig.skip(i + 1));
            assert(all.take(i + 1) == all.take(i as int).push(a.text_view()));
            let ghost before = s.args@;
            s.args.push(a.into_text());
            assert(texts(s.args@) =~= texts(before).push(all[i as int]));
            assert(start.args + all.take(i + 1) =~= (start.args + all.take(i as int)).push(
                all[i as int],
            ));
            i += 1;
        }
        assert(all.take(n as int) == all);
        s
    }

    /// Set the working directory.
    pub fn cwd<S: IntoText>(self, cwd: S) -> (s: Self)
        ensures
            s.view() == (SpawnerView { cwd: Some(cwd.text_view()), ..self.view() }),
    {
        let mut s = self;
        s.cwd = Some(cwd.into_text());
        s
    }

    /// Add or overwrite an environment variable.
    pub fn env<K: IntoText, V: IntoText>(self, key: K, value: V) -> (s: Self)
        ensures
            s.view() == with_env(self.view(), key.text_view(), value.text_view()),
    {
        let mut s = self;
        let key = key.into_text();
        let value = value.into_text();
        let mut removed: Vec<String> = Vec::new();
        std::mem::swap(&mut removed, &mut s.remove_env);
        s.remove_env = drop_name(removed, key.as_str());
        let ghost before = s.env@;
        let ghost kv = (key@, value@);
        s.env.push((key, value));
        assert(pair_texts(s.env@) =~= pair_texts(before).push(kv));
        s
    }

    /// Add many environment variables, one after another.
    pub fn envs<K: IntoText, V: IntoText>(self, pairs: Vec<(K, V)>) -> (s: Self)
        ensures
            s.view() == with_envs(
                self.view(),
                pairs@.map_values(|p: (K, V)| (p.0.text_view(), p.1.text_view())),
            ),
    {
        let mut s = self;
        let ghost start = s.view();
        let ghost all = pairs@.map_values(|p: (K, V)| (p.0.text_view(), p.1.text_view()));
        let mut pairs = pairs;
        let ghost orig = pairs@;
        let n = pairs.len();
        let mut i: usize = 0;
        while i < n
            invariant
                n == orig.len(),
                all == orig.map_values(|p: (K, V)| (p.0.text_view(), p.1.text_view())),
                i <= n,
                pairs@ == orig.skip(i as int),
                s.view() == with_envs(start, all.take(i as int)),
            decreases n - i,
        {
            let (k, v) = pairs.remove(0);
            assert(orig.skip(i as int).remove(0) == orig.skip(i + 1));
            assert(all.take(i + 1).drop_last() == all.take(i as int));
            assert(all.take(i + 1).last() == (k.text_view(), v.text_view()));
            s = s.env(k, v);
            i += 1;
        }
        assert(all.take(n as int) == all);
        s
    }

    /// Remove an environment variable from the child (and any value set
    /// for it here).
    pub fn env_remove<S: IntoText>(self, key: S) -> (s: Self)
        ensures
            s.view() == without_env(self.view(), key.text_view()),
    {
        let mut s = self;
        let key = key.into_text();
        let mut env: Vec<(String, String)> = Vec::new();
        std::mem::swap(&mut env, &mut s.env);
        s.env = drop_key(env, key.as_str());
        let ghost before = s.remove_env@;
        let ghost kv = key@;
        s.remove_env.push(key);
        assert(texts(s.remove_env@) =~= texts(before).push(kv));
        s
    }

    /// Capture child output to a log file instead of inheriting stdio.
    pub fn log_to<S: IntoText>(self, path: S) -> (s: Self)
        ensures
            s.view() == (SpawnerView {
                log: Some(path.text_view()),
                inherit_stdio: false,
                ..self.view()
            }),
    {
        let mut s = self;
        s.log = Some(path.into_text());
        s.inherit_stdio = false;
        s
    }

    /// Force ANSI color in the child even when no TTY is attached.
    pub fn force_color(self, force: bool) -> (s: Self)
        ensures
            s.view() == (SpawnerView { force_color: force, ..self.view() }),
    {
        let mut s = self;
        s.force_color = force;
        s
    }

    /// Whether to inherit stdio from the parent process (default: true).
    ///
    /// When `true` the child shares the parent's terminal (stdin/stdout/stderr).
    /// When `false` stdio is piped (use together with [`Self::log_to`]).
    pub fn inherit_stdio(self, inherit: bool) -> (s: Self)
        ensures
            s.view() == (SpawnerView { inherit_stdio: inherit, ..self.view() }),
    {
        let mut s = self;
        s.inherit_stdio = inherit;
        s
    }

    /// The program.
    pub fn program(&self) -> (r: &str)
        ensures
            r@ == self.view().program,
    {
        self.program.as_str()
    }

    /// The positional arguments.
    pub fn arguments(&self) -> (r: &Vec<String>)
        ensures
            texts(r@) == self.view().args,
    {
        &self.args
    }

    /// The working directory.
    pub fn working_dir(&self) -> (r: Option<&str>)
        ensures
            match self.view().cwd {
                Some(c) => r is Some && r->Some_0@ == c,
                None => r is None,
            },
    {
        match &self.cwd {
            Some(c) => Some(c.as_str()),
            None => None,
        }
    }

    /// The log file.
    pub fn log_file(&self) -> (r: Option<&str>)
        ensures
            match self.view().log {
                Some(c) => r is Some && r->Some_0@ == c,
                None => r is None,
            },
    {
        match &self.log {
            Some(c) => Some(c.as_str()),
            None => None,
        }
    }

    /// Whether the child shares the parent's stdio.
    pub fn inherits_stdio(&self) -> (r: bool)
        ensures
            r == self.view().inherit_stdio,
    {
        self.inherit_stdio
    }

    /// The error to give before spawning: an empty program name.
    pub fn check_program(&self) -> (r: Result<(), Error>)
        ensures
            self.view().program.len() == 0 ==> (r matches Err(Error::ProcessNotFound(m)) && m@
                == "empty program name"@),
            self.view().program.len() > 0 ==> r is Ok,
    {
        if self.program.as_str().is_empty() {
            Err(Error::ProcessNotFound(owned("empty program name")))
        } else {
            Ok(())
        }
    }

    /// The variable assignments for the child, to apply in order on an
    /// empty environment (a later one wins): the parent's variables that
    /// are not removed, the de-duplicated `PATH` when there is one, the
    /// variables set here (explicit overrides come last, so they win over
    /// both), and `FORCE_COLOR=1` and `CLICOLOR_FORCE=1` when colour is
    /// forced.
    pub fn child_env(&self, parent: &Vec<(String, String)>, deduped_path: Option<String>) -> (r: Vec<
        (String, String),
    >)
        ensures
            pair_texts(r@) == child_assignments(self.view(), pair_texts(parent@), opt_text(deduped_path)),
    {
        let ghost pv = pair_texts(parent@);
        let ghost removed = texts(self.remove_env@);
        let mut r: Vec<(String, String)> = Vec::new();
        let mut i: usize = 0;
        while i < parent.len()
            invariant
                i <= parent@.len(),
                pv == pair_texts(parent@),
                removed == texts(self.remove_env@),
                pair_texts(r@) == kept_vars(pv.take(i as int), removed),
            decreases parent.len() - i,
        {
            let e = &parent[i];
            assert(pv.take(i + 1).drop_last() == pv.take(i as int));
            assert(pv.take(i + 1).last() == (e.0@, e.1@));
            let ghost prev = r@;
            if !contains_text(&self.remove_env, e.0.as_str()) {
                r.push((e.0.clone(), e.1.clone()));
                assert(pair_texts(r@) =~= pair_texts(prev).push((e.0@, e.1@)));
            }
            i += 1;
        }
        assert(pv.take(parent@.len() as int) == pv);
        let ghost kept = pair_texts(r@);
        match deduped_path {
            Some(p) => {
                let ghost pp = p@;
                r.push((owned("PATH"), p));
                assert(pair_texts(r@) =~= kept + seq![("PATH"@, pp)]);
            },
            None => {
                assert(kept + Seq::<(Seq<char>, Seq<char>)>::empty() =~= kept);
            },
        }
        let ghost base = r@;
        let mut j: usize = 0;
        while j < self.env.len()
            invariant
                j <= self.env@.len(),
                pair_texts(r@) == pair_texts(base) + pair_texts(self.env@).take(j as int),
            decreases self.env.len() - j,
        {
            let e = &self.env[j];
            let ghost prev = r@;
            r.push((e.0.clone(), e.1.clone()));
            assert(pair_texts(self.env@).take(j + 1) == pair_texts(self.env@).take(j as int).push(
                (e.0@, e.1@),
            ));
            assert(pair_texts(r@) =~= pair_texts(prev).push((e.0@, e.1@)));
            j += 1;
        }
        assert(pair_texts(self.env@).take(self.env@.len() as int) == pair_texts(self.env@));
        let ghost mid2 = pair_texts(r@);
        if self.force_color {
            r.push((owned("FORCE_COLOR"), owned("1")));
            r.push((owned("CLICOLOR_FORCE"), owned("1")));
            assert(pair_texts(r@) =~= mid2 + seq![("FORCE_COLOR"@, "1"@), ("CLICOLOR_FORCE"@, "1"@)]);
        } else {
            assert(mid2 + Seq::<(Seq<char>, Seq<char>)>::empty() =~= mid2);
        }
        r
    }
}

/// The parent's variables whose names are not removed.
pub open spec fn kept_vars(vars: Seq<(Seq<char>, Seq<char>)>, removed: Seq<Seq<char>>) -> Seq<
    (Seq<char>, Seq<char>),
>
    decreases vars.len(),
{
    if vars.len() == 0 {
        Seq::empty()
    } else if removed.contains(vars.last().0) {
        kept_vars(vars.drop_last(), removed)
    } else {
        kept_vars(vars.drop_last(), removed).push(vars.last())
    }
}

/// Whether some string of `v` is `k`.
pub fn contains_text(v: &Vec<String>, k: &str) -> (r: bool)
    ensures
        r == texts(v@).contains(k@),
{
    let mut i: usize = 0;
    while i < v.len()
        invariant
            i <= v@.len(),
            forall|j: int| 0 <= j < i ==> v@[j]@ != k@,
        decreases v.len() - i,
    {
        if str_eq(v[i].as_str(), k) {
            assert(texts(v@)[i as int] == k@);
            return true;
        }
        i += 1;
    }
    assert(!texts(v@).contains(k@)) by {
        if texts(v@).contains(k@) {
            let j = choose|j: int| 0 <= j < texts(v@).len() && texts(v@)[j] == k@;
            assert(v@[j]@ == k@);
        }
    }
    false
}

// ---------------------------------------------------------------------------
// Command lines
// ---------------------------------------------------------------------------

/// `s` with each `'` replaced by `'\''`.
pub open spec fn quote_quotes(s: Seq<char>) -> Seq<char>
    decreases s.len(),
{
    if s.len() == 0 {
        Seq::empty()
    } else {
        quote_quotes(s.drop_last()) + if s.last() == '\'' {
            seq!['\'', '\\', '\'', '\'']
        } else {
            seq![s.last()]
        }
    }
}

/// POSIX single-quoting of one word.
pub open spec fn shell_quoted(s: Seq<char>) -> Seq<char> {
    seq!['\''] + quote_quotes(s) + seq!['\'']
}

/// Minimal POSIX shell word quoting: the word in single quotes, each
/// embedded `'` written as `'\''` (close, escaped quote, reopen).
pub fn shell_escape(s: &str) -> (r: String)
    ensures
        r@ == shell_quoted(s@),
{
    let v = chars_of(s);
    let mut r = String::new();
    r.push('\'');
    let mut i: usize = 0;
    while i < v.len()
        invariant
            v@ == s@,
            i <= v@.len(),
            r@ == seq!['\''] + quote_quotes(v@.take(i as int)),
        decreases v.len() - i,
    {
        let c = v[i];
        assert(v@.take(i + 1).drop_last() == v@.take(i as int));
        assert(v@.take(i + 1).last() == c);
        let ghost prev = r@;
        if c == '\'' {
            r.push('\'');
            r.push('\\');
            r.push('\'');
            r.push('\'');
            assert(r@ =~= prev + seq!['\'', '\\', '\'', '\'']);
        } else {
            r.push(c);
            assert(r@ =~= prev + seq![c]);
        }
        i += 1;
    }
    r.push('\'');
    assert(v@.take(v@.len() as int) == v@);
    r
}

/// Characters that make `cmd.exe` need a token quoted.
pub open spec fn cmd_special(c: char) -> bool {
    c == ' ' || c == '\t' || c == '"' || c == '&' || c == '|' || c == '<' || c == '>' || c == '^'
}

/// `s` with a `\` before each `"`.
pub open spec fn escape_dquotes(s: Seq<char>) -> Seq<char>
    decreases s.len(),
{
    if s.len() == 0 {
        Seq::empty()
    } else {
        escape_dquotes(s.drop_last()) + if s.last() == '"' {
            seq!['\\', '"']
        } else {
            seq![s.last()]
        }
    }
}

/// A token for a `cmd.exe /c` command line: `""` for an empty token, the
/// token itself when it has no special character, else the token in
/// double quotes with each embedded `"` escaped.
pub open spec fn cmd_quoted(s: Seq<char>) -> Seq<char> {
    if s.len() == 0 {
        seq!['"', '"']
    } else if !(exists|i: int| 0 <= i < s.len() && cmd_special(#[trigger] s[i])) {
        s
    } else {
        seq!['"'] + escape_dquotes(s) + seq!['"']
    }
}

/// Quote a single token for use in a `cmd.exe /c` command line.
pub fn quote_cmd_arg(s: &str) -> (r: String)
    ensures
        r@ == cmd_quoted(s@),
{
    let v = chars_of(s);
    if v.len() == 0 {
        let mut r = String::new();
        r.push('"');
        r.push('"');
        assert(r@ =~= seq!['"', '"']);
        return r;
    }
    let mut needs = false;
    let mut i: usize = 0;
    while i < v.len()
        invariant
            v@ == s@,
            i <= v@.len(),
            needs == exists|j: int| 0 <= j < i && cmd_special(#[trigger] v@[j]),
        decreases v.len() - i,
    {
        let c = v[i];
        if c == ' ' || c == '\t' || c == '"' || c == '&' || c == '|' || c == '<' || c == '>' || c
            == '^' {
            needs = true;
        }
        i += 1;
    }
    if !needs {
        return owned(s);
    }
    let mut r = String::new();
    r.push('"');
    let mut k: usize = 0;
    while k < v.len()
        invariant
            v@ == s@,
            k <= v@.len(),
            r@ == seq!['"'] + escape_dquotes(v@.take(k as int)),
        decreases v.len() - k,
    {
        let c = v[k];
        assert(v@.take(k + 1).drop_last() == v@.take(k as int));
        assert(v@.take(k + 1).last() == c);
        let ghost prev = r@;
        if c == '"' {
            r.push('\\');
        }
        r.push(c);
        if c == '"' {
            assert(r@ =~= prev + seq!['\\', '"']);
        } else {
            assert(r@ =~= prev + seq![c]);
        }
        k += 1;
    }
    r.push('"');
    assert(v@.take(v@.len() as int) == v@);
    r
}

/// Each argument, after a space, in the given quoting.
pub open spec fn quoted_args(args: Seq<Seq<char>>, windows: bool) -> Seq<char>
    decreases args.len(),
{
    if args.len() == 0 {
        Seq::empty()
    } else {
        quoted_args(args.drop_last(), windows) + seq![' '] + if windows {
            cmd_quoted(args.last())
        } else {
            shell_quoted(args.last())
        }
    }
}

/// The text handed to the shell: on Unix `./node_modules/.bin` goes before
/// `PATH` so local project binaries are found; every word is quoted.
pub open spec fn command_line_text(program: Seq<char>, args: Seq<Seq<char>>, windows: bool) -> Seq<
    char,
> {
    if windows {
        cmd_quoted(program) + quoted_args(args, true)
    } else {
        "PATH=\"./node_modules/.bin:$PATH\" "@ + shell_quoted(program) + quoted_args(args, false)
    }
}

/// The shell command line that runs `program` with `args`.
pub fn command_line(program: &str, args: &Vec<String>, windows: bool) -> (r: String)
    ensures
        r@ == command_line_text(program@, texts(args@), windows),
{
    let mut r = if windows {
        quote_cmd_arg(program)
    } else {
        let mut r = owned("PATH=\"./node_modules/.bin:$PATH\" ");
        let q = shell_escape(program);
        push_str(&mut r, q.as_str());
        r
    };
    let ghost head = r@;
    let ghost all = texts(args@);
    let mut i: usize = 0;
    while i < args.len()
        invariant
            i <= args@.len(),
            all == texts(args@),
            r@ == head + quoted_args(all.take(i as int), windows),
        decreases args.len() - i,
    {
        assert(all.take(i + 1).drop_last() == all.take(i as int));
        assert(all.take(i + 1).last() == args@[i as int]@);
        let ghost prev = r@;
        r.push(' ');
        let q = if windows {
            quote_cmd_arg(args[i].as_str())
        } else {
            shell_escape(args[i].as_str())
        };
        push_str(&mut r, q.as_str());
        assert(r@ =~= prev + seq![' '] + q@);
        i += 1;
    }
    assert(all.take(args@.len() as int) == all);
    r
}

/// The shell that runs a command line, and its arguments: `cmd /d /s /c`
/// on Windows, `/bin/sh -c` elsewhere.
pub fn shell_invocation(program: &str, args: &Vec<String>, windows: bool) -> (r: (String, Vec<
    String,
>))
    ensures
        windows ==> r.0@ == "cmd"@ && texts(r.1@) == seq![
            "/d"@,
            "/s"@,
            "/c"@,
            command_line_text(program@, texts(args@), true),
        ],
        !windows ==> r.0@ == "/bin/sh"@ && texts(r.1@) == seq![
            "-c"@,
            command_line_text(program@, texts(args@), false),
        ],
{
    let line = command_line(program, args, windows);
    let mut a: Vec<String> = Vec::new();
    if windows {
        a.push(owned("/d"));
        a.push(owned("/s"));
        a.push(owned("/c"));
        a.push(line);
        assert(texts(a@) =~= seq!["/d"@, "/s"@, "/c"@, command_line_text(program@, texts(args@), true)]);
        (owned("cmd"), a)
    } else {
        a.push(owned("-c"));
        a.push(line);
        assert(texts(a@) =~= seq!["-c"@, command_line_text(program@, texts(args@), false)]);
        (owned("/bin/sh"), a)
    }
}

/// The error for a program that the OS could not find.
pub fn not_found_error(program: &str) -> (e: Error)
    ensures
        e matches Error::ProcessNotFound(m) && m@ == "'"@ + program@
            + "' not found on PATH. Make sure it is installed and available in your shell."@,
{
    let mut m = owned("'");
    push_str(&mut m, program);
    push_str(&mut m, "' not found on PATH. Make sure it is installed and available in your shell.");
    Error::ProcessNotFound(m)
}

// ---------------------------------------------------------------------------
// PATH de-duplication
// ---------------------------------------------------------------------------

/// The `PATH` entries kept: each trimmed, empty ones dropped, and an entry
/// dropped when an earlier kept one is the same ignoring ASCII case.
pub open spec fn dedup_entries(pieces: Seq<Seq<char>>) -> Seq<Seq<char>>
    decreases pieces.len(),
{
    if pieces.len() == 0 {
        Seq::empty()
    } else {
        let prev = dedup_entries(pieces.drop_last());
        let t = trimmed(pieces.last());
        if t.len() > 0 && !prev.map_values(|x: Seq<char>| lower_seq(x)).contains(lower_seq(t)) {
            prev.push(t)
        } else {
            prev
        }
    }
}

/// De-duplicate a `PATH` value whose entries are separated by `sep`
/// (version managers accumulate duplicates across nested processes).
pub fn dedup_path_entries(path: &str, sep: char) -> (r: String)
    ensures
        r@ == joined(dedup_entries(split(path@, sep)), seq![sep]),
{
    let v = chars_of(path);
    let pieces = split_vec(&v, sep);
    let ghost ps = pieces@.map_values(|p: Vec<char>| p@);
    assert(ps =~= split(path@, sep));
    let mut kept: Vec<String> = Vec::new();
    let mut lowers: Vec<String> = Vec::new();
    let mut i: usize = 0;
    while i < pieces.len()
        invariant
            i <= pieces@.len(),
            ps == pieces@.map_values(|p: Vec<char>| p@),
            texts(kept@) == dedup_entries(ps.take(i as int)),
            texts(lowers@) == texts(kept@).map_values(|x: Seq<char>| lower_seq(x)),
        decreases pieces.len() - i,
    {
        assert(ps.take(i + 1).drop_last() == ps.take(i as int));
        assert(ps.take(i + 1).last() == pieces@[i as int]@);
        let e = string_of(&pieces[i]);
        let t = trim(e.as_str());
        let l = to_lower(t.as_str());
        let ghost pk = kept@;
        let ghost pl = lowers@;
        if !t.as_str().is_empty() && !contains_text(&lowers, l.as_str()) {
            let ghost tv = t@;
            let ghost lv = l@;
            kept.push(t);
            lowers.push(l);
            assert(texts(kept@) =~= texts(pk).push(tv));
            assert(texts(lowers@) =~= texts(pl).push(lv));
            assert(texts(kept@).map_values(|x: Seq<char>| lower_seq(x)) =~= texts(pk).map_values(
                |x: Seq<char>| lower_seq(x),
            ).push(lower_seq(tv)));
        }
        i += 1;
    }
    assert(ps.take(pieces@.len() as int) == ps);
    let mut s = String::new();
    s.push(sep);
    crate::text::join_strings(&kept, s.as_str())
}

/// The value `k` ends up with after the assignments `pairs` are applied in
/// order (the last one wins); none when no pair sets `k`.
pub open spec fn env_value(pairs: Seq<(Seq<char>, Seq<char>)>, k: Seq<char>) -> Option<Seq<char>>
    decreases pairs.len(),
{
    if pairs.len() == 0 {
        None
    } else if pairs.last().0 == k {
        Some(pairs.last().1)
    } else {
        env_value(pairs.drop_last(), k)
    }
}

/// The builder after `env_remove(k)`: `(k, _)` no longer set, and `k`
/// removed from what the child inherits.
pub open spec fn without_env(s: SpawnerView, k: Seq<char>) -> SpawnerView {
    SpawnerView { env: without_key(s.env, k), remove_env: s.remove_env.push(k), ..s }
}

/// The assignments [`Spawner::child_env`] makes for a builder `s`, the
/// parent's variables `parent` and the de-duplicated `PATH`.
pub open spec fn child_assignments(
    s: SpawnerView,
    parent: Seq<(Seq<char>, Seq<char>)>,
    path: Option<Seq<char>>,
) -> Seq<(Seq<char>, Seq<char>)> {
    kept_vars(parent, s.remove_env) + match path {
        Some(p) => seq![("PATH"@, p)],
        None => Seq::empty(),
    } + s.env + if s.force_color {
        seq![("FORCE_COLOR"@, "1"@), ("CLICOLOR_FORCE"@, "1"@)]
    } else {
        Seq::empty()
    }
}

/// A variable that forced colour sets.
pub open spec fn colour_var(k: Seq<char>) -> bool {
    k == "FORCE_COLOR"@ || k == "CLICOLOR_FORCE"@
}

/// The later of two runs of assignments wins.
proof fn lemma_env_value_add(a: Seq<(Seq<char>, Seq<char>)>, b: Seq<(Seq<char>, Seq<char>)>, k: Seq<char>)
    ensures
        env_value(a + b, k) == match env_value(b, k) {
            Some(v) => Some(v),
            None => env_value(a, k),
        },
    decreases b.len(),
{
    if b.len() == 0 {
        assert(a + b =~= a);
    } else {
        lemma_env_value_add(a, b.drop_last(), k);
        assert((a + b).drop_last() =~= a + b.drop_last());
        assert((a + b).last() == b.last());
    }
}

/// Nothing sets `k` once the pairs for `k` are dropped.
proof fn lemma_env_value_without(pairs: Seq<(Seq<char>, Seq<char>)>, k: Seq<char>)
    ensures
        env_value(without_key(pairs, k), k) is None,
    decreases pairs.len(),
{
    if pairs.len() > 0 {
        lemma_env_value_without(pairs.drop_last(), k);
        let w = without_key(pairs.drop_last(), k);
        if pairs.last().0 != k {
            assert(w.push(pairs.last()).drop_last() =~= w);
        }
    }
}

/// A removed name is not inherited.
proof fn lemma_env_value_kept(parent: Seq<(Seq<char>, Seq<char>)>, removed: Seq<Seq<char>>, k: Seq<char>)
    requires
        removed.contains(k),
    ensures
        env_value(kept_vars(parent, removed), k) is None,
    decreases parent.len(),
{
    if parent.len() > 0 {
        lemma_env_value_kept(parent.drop_last(), removed, k);
        let w = kept_vars(parent.drop_last(), removed);
        if !removed.contains(parent.last().0) {
            assert(parent.last().0 != k);
            assert(w.push(parent.last()).drop_last() =~= w);
        }
    }
}

/// The colour assignments set no other name.
proof fn lemma_colour_pairs(k: Seq<char>)
    ensures
        !colour_var(k) ==> env_value(seq![("FORCE_COLOR"@, "1"@), ("CLICOLOR_FORCE"@, "1"@)], k) is None,
{
    let c = seq![("FORCE_COLOR"@, "1"@), ("CLICOLOR_FORCE"@, "1"@)];
    let c1 = seq![("FORCE_COLOR"@, "1"@)];
    let c0 = Seq::<(Seq<char>, Seq<char>)>::empty();
    assert(c.drop_last() =~= c1);
    assert(c1.drop_last() =~= c0);
    assert(env_value(c0, k) is None);
    if !colour_var(k) {
        assert(c1.last().0 != k);
        assert(env_value(c1, k) == env_value(c0, k));
        assert(c.last().0 != k);
        assert(env_value(c, k) == env_value(c1, k));
    }
}

/// What the child sees of `k` given `env(k, v)` last: `v`, whatever was set
/// or removed before (`env(k, a).env(k, b)` gives `b`, and
/// `env_remove(k).env(k, v)` gives `v`), unless colour is forced and `k` is
/// one of the variables that forcing colour sets.
pub proof fn lemma_env_sets(
    s: SpawnerView,
    parent: Seq<(Seq<char>, Seq<char>)>,
    path: Option<Seq<char>>,
    k: Seq<char>,
    v: Seq<char>,
)
    requires
        !(s.force_color && colour_var(k)),
    ensures
        env_value(child_assignments(with_env(s, k, v), parent, path), k) == Some(v),
{
    let t = with_env(s, k, v);
    let head = kept_vars(parent, t.remove_env) + match path {
        Some(p) => seq![("PATH"@, p)],
        None => Seq::empty(),
    };
    let colour = if t.force_color {
        seq![("FORCE_COLOR"@, "1"@), ("CLICOLOR_FORCE"@, "1"@)]
    } else {
        Seq::empty()
    };
    lemma_env_value_add(head + t.env, colour, k);
    lemma_env_value_add(head, t.env, k);
    lemma_colour_pairs(k);
    assert(t.env.last() == (k, v));
}

/// What the child sees of `k` after `env_remove(k)`: nothing, unless `k`
/// is `PATH` and a de-duplicated `PATH` is passed on, or colour is forced
/// and `k` is one of the variables that forcing colour sets.
pub proof fn lemma_env_remove_unsets(
    s: SpawnerView,
    parent: Seq<(Seq<char>, Seq<char>)>,
    path: Option<Seq<char>>,
    k: Seq<char>,
)
    requires
        !(s.force_color && colour_var(k)),
        path is None || k != "PATH"@,
    ensures
        env_value(child_assignments(without_env(s, k), parent, path), k) is None,
{
    let t = without_env(s, k);
    let paths = match path {
        Some(p) => seq![("PATH"@, p)],
        None => Seq::empty(),
    };
    let kept = kept_vars(parent, t.remove_env);
    let colour = if t.force_color {
        seq![("FORCE_COLOR"@, "1"@), ("CLICOLOR_FORCE"@, "1"@)]
    } else {
        Seq::empty()
    };
    lemma_env_value_add(kept + paths + t.env, colour, k);
    lemma_env_value_add(kept + paths, t.env, k);
    lemma_env_value_add(kept, paths, k);
    lemma_colour_pairs(k);
    lemma_env_value_without(s.env, k);
    assert(t.remove_env[s.remove_env.len() as int] == k);
    lemma_env_value_kept(parent, t.remove_env, k);
    assert(env_value(Seq::<(Seq<char>, Seq<char>)>::empty(), k) is None);
    if path is Some {
        assert(paths.last().0 != k);
        assert(paths.drop_last() =~= Seq::<(Seq<char>, Seq<char>)>::empty());
    }
    assert(env_value(paths, k) is None);
    assert(env_value(t.env, k) is None);
    assert(env_value(colour, k) is None);
    assert(env_value(kept, k) is None);
    assert(child_assignments(t, parent, path) == kept + paths + t.env + colour);
}

} // verus!
