//! Centralized path resolution for the Portless state directory.
//!
//! Paths are `/`-separated text; joining and the inside-the-root check
//! follow `std::path` on Unix.

use vstd::prelude::*;
use crate::text::{
    IntoText, chars_of, lemma_split_concat, owned, push_str, seq_eq, split, split_vec, string_of,
    vec_starts_with,
};

verus! {

/// `base` joined with `part`: `part` itself when it is absolute (or `base`
/// is empty), else `base`, a `/` unless `base` already ends with one, and
/// `part` (`Path::join` on Unix).
pub open spec fn path_join(base: Seq<char>, part: Seq<char>) -> Seq<char> {
    if (part.len() > 0 && part[0] == '/') || base.len() == 0 {
        part
    } else if base.last() == '/' {
        base + part
    } else {
        base.push('/') + part
    }
}

/// The pieces that name directories or files: neither empty nor `.`.
pub open spec fn normal_pieces(pieces: Seq<Seq<char>>) -> Seq<Seq<char>>
    decreases pieces.len(),
{
    if pieces.len() == 0 {
        Seq::empty()
    } else {
        let p = pieces.last();
        if p.len() == 0 || p == seq!['.'] {
            normal_pieces(pieces.drop_last())
        } else {
            normal_pieces(pieces.drop_last()).push(p)
        }
    }
}

/// The components of a path as `Path::components` gives them on Unix: a
/// leading `/` as a root component, a leading `.` kept, every other `.`
/// and empty piece dropped.
pub open spec fn components(p: Seq<char>) -> Seq<Seq<char>> {
    let pieces = split(p, '/');
    if p.len() > 0 && p[0] == '/' {
        seq![seq!['/']] + normal_pieces(pieces)
    } else if pieces.len() > 0 && pieces[0] == seq!['.'] {
        seq![seq!['.']] + normal_pieces(pieces.drop_first())
    } else {
        normal_pieces(pieces)
    }
}

/// `base`'s components begin `path`'s (`Path::starts_with`).
pub open spec fn path_starts_with(path: Seq<char>, base: Seq<char>) -> bool {
    let a = components(path);
    let b = components(base);
    b.len() <= a.len() && a.take(b.len() as int) == b
}

/// `base` joined with `part`.
pub fn join(base: &str, part: &str) -> (r: String)
    ensures
        r@ == path_join(base@, part@),
{
    let b = chars_of(base);
    let p = chars_of(part);
    if (p.len() > 0 && p[0] == '/') || b.len() == 0 {
        return owned(part);
    }
    let mut r = owned(base);
    if b[b.len() - 1] != '/' {
        r.push('/');
    }
    push_str(&mut r, part);
    r
}

/// `lead`, then the normal pieces of `pieces[from..]`.
fn keep_normal(pieces: &Vec<Vec<char>>, from: usize, lead: Vec<Vec<char>>) -> (r: Vec<Vec<char>>)
    requires
        from <= pieces@.len(),
    ensures
        r@.map_values(|v: Vec<char>| v@) == lead@.map_values(|v: Vec<char>| v@) + normal_pieces(
            pieces@.skip(from as int).map_values(|v: Vec<char>| v@),
        ),
{
    let ghost all = pieces@.skip(from as int).map_values(|v: Vec<char>| v@);
    let ghost head = lead@.map_values(|v: Vec<char>| v@);
    let dot = chars_of(".");
    proof {
        reveal_strlit(".");
    }
    assert(dot@ == seq!['.']);
    let mut r = lead;
    let mut i: usize = from;
    assert(all.take(0) =~= Seq::<Seq<char>>::empty());
    assert(head + Seq::<Seq<char>>::empty() =~= head);
    while i < pieces.len()
        invariant
            from <= i <= pieces@.len(),
            dot@ == seq!['.'],
            all == pieces@.skip(from as int).map_values(|v: Vec<char>| v@),
            r@.map_values(|v: Vec<char>| v@) == head + normal_pieces(all.take(i - from)),
        decreases pieces.len() - i,
    {
        let piece = &pieces[i];
        assert(all.take(i + 1 - from).drop_last() == all.take(i - from));
        assert(all.take(i + 1 - from).last() == piece@);
        let ghost prev = r@;
        if piece.len() != 0 && !seq_eq(piece, &dot) {
            let mut copy: Vec<char> = Vec::new();
            let mut j: usize = 0;
            while j < piece.len()
                invariant
                    j <= piece@.len(),
                    copy@ == piece@.take(j as int),
                decreases piece.len() - j,
            {
                copy.push(piece[j]);
                assert(piece@.take(j + 1) == piece@.take(j as int).push(piece@[j as int]));
                j += 1;
            }
            assert(piece@.take(piece@.len() as int) == piece@);
            r.push(copy);
            assert(r@.map_values(|v: Vec<char>| v@) =~= prev.map_values(|v: Vec<char>| v@).push(
                piece@,
            ));
        }
        i += 1;
    }
    assert(all.take(pieces@.len() - from) == all);
    r
}

/// One component holding one character.
fn single(c: char) -> (r: Vec<Vec<char>>)
    ensures
        r@.map_values(|v: Vec<char>| v@) == seq![seq![c]],
{
    let mut v: Vec<char> = Vec::new();
    v.push(c);
    let mut r: Vec<Vec<char>> = Vec::new();
    r.push(v);
    assert(r@.map_values(|x: Vec<char>| x@) =~= seq![seq![c]]);
    r
}

/// The components of a path.
pub fn path_components(p: &str) -> (r: Vec<Vec<char>>)
    ensures
        r@.map_values(|v: Vec<char>| v@) == components(p@),
{
    let v = chars_of(p);
    let pieces = split_vec(&v, '/');
    let ghost ps = pieces@.map_values(|x: Vec<char>| x@);
    assert(ps =~= split(p@, '/'));
    proof {
        crate::text::lemma_split_nonempty(p@, '/');
    }
    if v.len() > 0 && v[0] == '/' {
        assert(pieces@.skip(0) == pieces@);
        assert(components(p@) == seq![seq!['/']] + normal_pieces(ps));
        keep_normal(&pieces, 0, single('/'))
    } else {
        let dot = chars_of(".");
        proof {
            reveal_strlit(".");
        }
        assert(ps[0] == pieces@[0]@);
        assert(dot@ == seq!['.']);
        assert(!(p@.len() > 0 && p@[0] == '/'));
        if seq_eq(&pieces[0], &dot) {
            assert(components(p@) == seq![seq!['.']] + normal_pieces(ps.drop_first()));
            assert(pieces@.skip(1).map_values(|x: Vec<char>| x@) =~= ps.drop_first());
            keep_normal(&pieces, 1, single('.'))
        } else {
            assert(pieces@.skip(0) == pieces@);
            assert(components(p@) == normal_pieces(ps));
            let empty: Vec<Vec<char>> = Vec::new();
            assert(empty@.map_values(|x: Vec<char>| x@) + normal_pieces(ps) =~= normal_pieces(ps));
            keep_normal(&pieces, 0, empty)
        }
    }
}

/// Whether `path` starts with `base`, component by component.
pub fn starts_with_path(path: &str, base: &str) -> (r: bool)
    ensures
        r == path_starts_with(path@, base@),
{
    let a = path_components(path);
    let b = path_components(base);
    let ghost av = a@.map_values(|v: Vec<char>| v@);
    let ghost bv = b@.map_values(|v: Vec<char>| v@);
    if b.len() > a.len() {
        return false;
    }
    let mut i: usize = 0;
    while i < b.len()
        invariant
            b@.len() <= a@.len(),
            i <= b@.len(),
            av == a@.map_values(|v: Vec<char>| v@),
            bv == b@.map_values(|v: Vec<char>| v@),
            av == components(path@),
            bv == components(base@),
            forall|j: int| 0 <= j < i ==> av[j] == bv[j],
        decreases b.len() - i,
    {
        if !seq_eq(&a[i], &b[i]) {
            assert(av[i as int] == a@[i as int]@ && bv[i as int] == b@[i as int]@);
            assert(av.take(bv.len() as int)[i as int] == av[i as int]);
            return false;
        }
        i += 1;
    }
    assert(av.take(bv.len() as int) =~= bv);
    true
}

/// [`normal_pieces`] keeps the pieces of each part in turn.
pub proof fn lemma_normal_concat(x: Seq<Seq<char>>, y: Seq<Seq<char>>)
    ensures
        normal_pieces(x + y) == normal_pieces(x) + normal_pieces(y),
    decreases y.len(),
{
    if y.len() == 0 {
        assert(x + y =~= x);
        assert(normal_pieces(x) + Seq::<Seq<char>>::empty() =~= normal_pieces(x));
    } else {
        lemma_normal_concat(x, y.drop_last());
        assert((x + y).drop_last() =~= x + y.drop_last());
        assert((x + y).last() == y.last());
        let p = y.last();
        if p.len() == 0 || p == seq!['.'] {
        } else {
            assert(normal_pieces(x) + normal_pieces(y.drop_last()).push(p) =~= (normal_pieces(x)
                + normal_pieces(y.drop_last())).push(p));
        }
    }
}

/// `base`, `/`, `part` has the components of `base` and then the normal
/// components of `part`, when `base` is not empty.
proof fn lemma_components_join(a: Seq<char>, part: Seq<char>)
    requires
        !(a.len() == 0 && false),
    ensures
        (a.len() > 0 && a[0] == '/') ==> components(a.push('/') + part) == seq![seq!['/']]
            + normal_pieces(split(a, '/')) + normal_pieces(split(part, '/')),
        !(a.len() > 0 && a[0] == '/') && a.len() > 0 ==> components(a.push('/') + part)
            == components(a) + normal_pieces(split(part, '/')),
{
    let sa = split(a, '/');
    let sp = split(part, '/');
    let w = a.push('/') + part;
    lemma_split_concat(a, part, '/');
    lemma_normal_concat(sa, sp);
    crate::text::lemma_split_nonempty(a, '/');
    assert(w.len() > 0);
    if a.len() > 0 {
        assert(w[0] == a[0]);
        assert((sa + sp)[0] == sa[0]);
        if !(a[0] == '/') && sa[0] == seq!['.'] {
            assert((sa + sp).drop_first() =~= sa.drop_first() + sp);
            lemma_normal_concat(sa.drop_first(), sp);
            assert(seq![seq!['.']] + (normal_pieces(sa.drop_first()) + normal_pieces(sp)) =~= (seq![
                seq!['.'],
            ] + normal_pieces(sa.drop_first())) + normal_pieces(sp));
        }
        if a[0] == '/' {
            assert(seq![seq!['/']] + (normal_pieces(sa) + normal_pieces(sp)) =~= seq![seq!['/']]
                + normal_pieces(sa) + normal_pieces(sp));
        }
    }
}

/// A lone empty piece names nothing.
proof fn lemma_normal_empty_piece()
    ensures
        normal_pieces(seq![Seq::<char>::empty()]) == Seq::<Seq<char>>::empty(),
{
    let s = seq![Seq::<char>::empty()];
    assert(s.drop_last() =~= Seq::<Seq<char>>::empty());
    assert(s.last() == Seq::<char>::empty());
    assert(normal_pieces(Seq::<Seq<char>>::empty()) == Seq::<Seq<char>>::empty());
}

/// A relative part joined onto `base` stays inside `base`.
pub proof fn lemma_join_inside(base: Seq<char>, part: Seq<char>)
    requires
        !(part.len() > 0 && part[0] == '/'),
    ensures
        path_starts_with(path_join(base, part), base),
{
    let j = path_join(base, part);
    if base.len() == 0 {
        assert(split(base, '/') == seq![Seq::<char>::empty()]);
        lemma_normal_empty_piece();
        assert(seq!['.'].len() == 1);
        assert(split(base, '/')[0] != seq!['.']);
        assert(components(base).len() == 0);
        assert(components(j).take(0) =~= components(base));
    } else {
        let a = if base.last() == '/' {
            base.drop_last()
        } else {
            base
        };
        assert(j == a.push('/') + part) by {
            if base.last() == '/' {
                assert(a.push('/') =~= base);
            }
        }
        if base.last() == '/' && a.len() == 0 {
            assert(base =~= seq!['/']);
            assert(j == seq!['/'] + part);
            lemma_components_join(a, part);
            lemma_split_concat(a, Seq::<char>::empty(), '/');
            assert(a.push('/') + Seq::<char>::empty() =~= base);
            assert(split(a, '/') == seq![Seq::<char>::empty()]);
            lemma_split_concat(a, part, '/');
            lemma_normal_concat(split(a, '/'), split(part, '/'));
            lemma_normal_concat(split(a, '/'), split(Seq::<char>::empty(), '/'));
            lemma_normal_empty_piece();
            assert(split(Seq::<char>::empty(), '/') == seq![Seq::<char>::empty()]);
            assert(split(base, '/') == split(a, '/') + split(Seq::<char>::empty(), '/'));
            assert(normal_pieces(split(base, '/')) =~= Seq::<Seq<char>>::empty());
            assert(components(base) =~= seq![seq!['/']] + normal_pieces(split(base, '/')));
            assert(components(j) =~= seq![seq!['/']] + normal_pieces(split(j, '/')));
            let cb = components(base);
            let cj = components(j);
            assert(cj.take(cb.len() as int) =~= cb);
        } else {
            lemma_components_join(a, part);
            let cb = components(base);
            let cj = components(j);
            if base.last() == '/' {
                lemma_components_join(a, Seq::<char>::empty());
                assert(a.push('/') + Seq::<char>::empty() =~= base);
                assert(split(Seq::<char>::empty(), '/') == seq![Seq::<char>::empty()]);
                lemma_normal_empty_piece();
                if a[0] == '/' {
                    assert(cb =~= seq![seq!['/']] + normal_pieces(split(a, '/')));
                } else {
                    assert(cb =~= components(a));
                }
            }
            assert(cj.take(cb.len() as int) =~= cb);
        }
    }
}

/// Inside is transitive.
pub proof fn lemma_inside_transitive(a: Seq<char>, b: Seq<char>, c: Seq<char>)
    requires
        path_starts_with(a, b),
        path_starts_with(b, c),
    ensures
        path_starts_with(a, c),
{
    let ca = components(a);
    let cb = components(b);
    let cc = components(c);
    assert(ca.take(cc.len() as int) =~= cb.take(cc.len() as int));
}

/// Every well-known path of the state directory lies inside its root; the
/// per-host and per-app paths do too when the name does not start with `/`.
pub proof fn lemma_paths_inside_root(root: Seq<char>, name: Seq<char>)
    requires
        !(name.len() > 0 && name[0] == '/'),
    ensures
        path_starts_with(path_join(root, "routes.json"@), root),
        path_starts_with(path_join(root, "routes.lock"@), root),
        path_starts_with(path_join(root, "proxy.pid"@), root),
        path_starts_with(path_join(root, "proxy.port"@), root),
        path_starts_with(path_join(root, "proxy.log"@), root),
        path_starts_with(path_join(root, "proxy.lan"@), root),
        path_starts_with(path_join(root, "proxy.tld"@), root),
        path_starts_with(path_join(root, "proxy.wildcard"@), root),
        path_starts_with(path_join(root, "ca"@), root),
        path_starts_with(path_join(root, "logs"@), root),
        path_starts_with(path_join(root, "state-version"@), root),
        path_starts_with(path_join(path_join(root, "ca"@), "ca.pem"@), root),
        path_starts_with(path_join(path_join(root, "ca"@), "ca.key.pem"@), root),
        path_starts_with(path_join(path_join(root, "ca"@), "server.pem"@), root),
        path_starts_with(path_join(path_join(root, "ca"@), "server.key.pem"@), root),
        path_starts_with(path_join(path_join(path_join(root, "ca"@), "certs"@), name + ".pem"@), root),
        path_starts_with(path_join(path_join(path_join(root, "ca"@), "certs"@), name + ".key.pem"@), root),
        path_starts_with(path_join(path_join(root, "logs"@), name + ".log"@), root),
{
    reveal_strlit("routes.json");
    reveal_strlit("routes.lock");
    reveal_strlit("proxy.pid");
    reveal_strlit("proxy.port");
    reveal_strlit("proxy.log");
    reveal_strlit("proxy.lan");
    reveal_strlit("proxy.tld");
    reveal_strlit("proxy.wildcard");
    reveal_strlit("ca");
    reveal_strlit("logs");
    reveal_strlit("state-version");
    reveal_strlit("ca.pem");
    reveal_strlit("ca.key.pem");
    reveal_strlit("server.pem");
    reveal_strlit("server.key.pem");
    reveal_strlit("certs");
    reveal_strlit(".pem");
    reveal_strlit(".key.pem");
    reveal_strlit(".log");
    lemma_join_inside(root, "routes.json"@);
    lemma_join_inside(root, "routes.lock"@);
    lemma_join_inside(root, "proxy.pid"@);
    lemma_join_inside(root, "proxy.port"@);
    lemma_join_inside(root, "proxy.log"@);
    lemma_join_inside(root, "proxy.lan"@);
    lemma_join_inside(root, "proxy.tld"@);
    lemma_join_inside(root, "proxy.wildcard"@);
    lemma_join_inside(root, "ca"@);
    lemma_join_inside(root, "logs"@);
    lemma_join_inside(root, "state-version"@);
    let ca = path_join(root, "ca"@);
    lemma_join_inside(ca, "ca.pem"@);
    lemma_inside_transitive(path_join(ca, "ca.pem"@), ca, root);
    lemma_join_inside(ca, "ca.key.pem"@);
    lemma_inside_transitive(path_join(ca, "ca.key.pem"@), ca, root);
    lemma_join_inside(ca, "server.pem"@);
    lemma_inside_transitive(path_join(ca, "server.pem"@), ca, root);
    lemma_join_inside(ca, "server.key.pem"@);
    lemma_inside_transitive(path_join(ca, "server.key.pem"@), ca, root);
    let certs = path_join(ca, "certs"@);
    lemma_join_inside(ca, "certs"@);
    lemma_inside_transitive(certs, ca, root);
    assert((name + ".pem"@).len() > 0 && (name + ".pem"@)[0] != '/') by {
        if name.len() > 0 {
            assert((name + ".pem"@)[0] == name[0]);
        } else {
            assert(name + ".pem"@ =~= ".pem"@);
        }
    }
    lemma_join_inside(certs, name + ".pem"@);
    lemma_inside_transitive(path_join(certs, name + ".pem"@), certs, root);
    assert((name + ".key.pem"@).len() > 0 && (name + ".key.pem"@)[0] != '/') by {
        if name.len() > 0 {
            assert((name + ".key.pem"@)[0] == name[0]);
        } else {
            assert(name + ".key.pem"@ =~= ".key.pem"@);
        }
    }
    lemma_join_inside(certs, name + ".key.pem"@);
    lemma_inside_transitive(path_join(certs, name + ".key.pem"@), certs, root);
    let logs = path_join(root, "logs"@);
    assert((name + ".log"@).len() > 0 && (name + ".log"@)[0] != '/') by {
        if name.len() > 0 {
            assert((name + ".log"@)[0] == name[0]);
        } else {
            assert(name + ".log"@ =~= ".log"@);
        }
    }
    lemma_join_inside(logs, name + ".log"@);
    lemma_inside_transitive(path_join(logs, name + ".log"@), logs, root);
}

/// A resolver for all well-known Portless paths.
#[derive(Debug, Clone)]
pub struct Paths {
    /// Root state directory (e.g. `~/.portless`).
    root: String,
}

impl Paths {
    /// The root directory.
    pub closed spec fn root_view(&self) -> Seq<char> {
        self.root@
    }

    /// Construct a `Paths` rooted at the given directory.
    pub fn new<S: IntoText>(root: S) -> (p: Self)
        ensures
            p.root_view() == root.text_view(),
    {
        Paths { root: root.into_text() }
    }

    /// The state directory root.
    pub fn root(&self) -> (r: &str)
        ensures
            r@ == self.root_view(),
    {
        self.root.as_str()
    }

    /// `routes.json` -- the persistent route registry.
    pub fn routes_file(&self) -> (r: String)
        ensures
            r@ == path_join(self.root_view(), "routes.json"@),
    {
        join(self.root.as_str(), "routes.json")
    }

    /// `routes.lock` -- advisory lock around the routes file.
    pub fn routes_lock(&self) -> (r: String)
        ensures
            r@ == path_join(self.root_view(), "routes.lock"@),
    {
        join(self.root.as_str(), "routes.lock")
    }

    /// `proxy.pid` -- the PID of the running proxy.
    pub fn proxy_pid(&self) -> (r: String)
        ensures
            r@ == path_join(self.root_view(), "proxy.pid"@),
    {
        join(self.root.as_str(), "proxy.pid")
    }

    /// `proxy.port` -- the TCP port the proxy is listening on.
    pub fn proxy_port(&self) -> (r: String)
        ensures
            r@ == path_join(self.root_view(), "proxy.port"@),
    {
        join(self.root.as_str(), "proxy.port")
    }

    /// `proxy.log` -- daemon log output.
    pub fn proxy_log(&self) -> (r: String)
        ensures
            r@ == path_join(self.root_view(), "proxy.log"@),
    {
        join(self.root.as_str(), "proxy.log")
    }

    /// `proxy.lan` -- LAN mode marker.
    pub fn proxy_lan(&self) -> (r: String)
        ensures
            r@ == path_join(self.root_view(), "proxy.lan"@),
    {
        join(self.root.as_str(), "proxy.lan")
    }

    /// `proxy.tld` -- TLD marker (so the most recent TLD is remembered on
    /// restart).
    pub fn proxy_tld(&self) -> (r: String)
        ensures
            r@ == path_join(self.root_view(), "proxy.tld"@),
    {
        join(self.root.as_str(), "proxy.tld")
    }

    /// `proxy.wildcard` -- wildcard mode marker.
    pub fn proxy_wildcard(&self) -> (r: String)
        ensures
            r@ == path_join(self.root_view(), "proxy.wildcard"@),
    {
        join(self.root.as_str(), "proxy.wildcard")
    }

    /// `ca/` -- the local certificate authority directory.
    pub fn ca_dir(&self) -> (r: String)
        ensures
            r@ == path_join(self.root_view(), "ca"@),
    {
        join(self.root.as_str(), "ca")
    }

    /// `ca.pem` -- the public CA certificate (shared with browsers/OS).
    pub fn ca_cert(&self) -> (r: String)
        ensures
            r@ == path_join(path_join(self.root_view(), "ca"@), "ca.pem"@),
    {
        join(self.ca_dir().as_str(), "ca.pem")
    }

    /// `ca.key.pem` -- the CA private key (mode 0600).
    pub fn ca_key(&self) -> (r: String)
        ensures
            r@ == path_join(path_join(self.root_view(), "ca"@), "ca.key.pem"@),
    {
        join(self.ca_dir().as_str(), "ca.key.pem")
    }

    /// `server.pem` -- the wildcard server certificate.
    pub fn server_cert(&self) -> (r: String)
        ensures
            r@ == path_join(path_join(self.root_view(), "ca"@), "server.pem"@),
    {
        join(self.ca_dir().as_str(), "server.pem")
    }

    /// Private key for the wildcard server certificate.
    pub fn server_key(&self) -> (r: String)
        ensures
            r@ == path_join(path_join(self.root_view(), "ca"@), "server.key.pem"@),
    {
        join(self.ca_dir().as_str(), "server.key.pem")
    }

    /// `certs/<hostname>.pem` -- per-hostname certificate cache.
    pub fn cert_for(&self, hostname: &str) -> (r: String)
        ensures
            r@ == path_join(
                path_join(path_join(self.root_view(), "ca"@), "certs"@),
                hostname@ + ".pem"@,
            ),
    {
        let certs = join(self.ca_dir().as_str(), "certs");
        let mut name = owned(hostname);
        push_str(&mut name, ".pem");
        join(certs.as_str(), name.as_str())
    }

    /// `certs/<hostname>.key.pem` -- per-hostname private key cache.
    pub fn key_for(&self, hostname: &str) -> (r: String)
        ensures
            r@ == path_join(
                path_join(path_join(self.root_view(), "ca"@), "certs"@),
                hostname@ + ".key.pem"@,
            ),
    {
        let certs = join(self.ca_dir().as_str(), "certs");
        let mut name = owned(hostname);
        push_str(&mut name, ".key.pem");
        join(certs.as_str(), name.as_str())
    }

    /// `logs/` -- directory for child-process logs.
    pub fn logs_dir(&self) -> (r: String)
        ensures
            r@ == path_join(self.root_view(), "logs"@),
    {
        join(self.root.as_str(), "logs")
    }

    /// `logs/<name>.log` -- log file for a particular app.
    pub fn log_for(&self, name: &str) -> (r: String)
        ensures
            r@ == path_join(path_join(self.root_view(), "logs"@), name@ + ".log"@),
    {
        let mut file = owned(name);
        push_str(&mut file, ".log");
        join(self.logs_dir().as_str(), file.as_str())
    }

    /// `state-version` -- file containing the persisted state schema version.
    pub fn state_version_file(&self) -> (r: String)
        ensures
            r@ == path_join(self.root_view(), "state-version"@),
    {
        join(self.root.as_str(), "state-version")
    }

    /// Whether `path` is inside the state directory: the root's components
    /// begin the path's (a defensive check).
    pub fn is_inside(&self, path: &str) -> (r: bool)
        ensures
            r == path_starts_with(path@, self.root_view()),
    {
        starts_with_path(path, self.root.as_str())
    }
}

} // verus!
