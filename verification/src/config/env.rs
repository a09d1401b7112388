//! Environment variable configuration.

use vstd::prelude::*;
use crate::text::{IntoText, owned, parse_u16, parse_uint, starts_with, str_eq};
use crate::text_map::{TextMap, keys_of, lex_lt, map_of, sorted_keys};

verus! {

/// The pairs of a `HashMap`, from `HashMap::into_iter().collect()`. Every
/// key/value pair of the map comes out exactly once, in an order that the
/// map's hasher decides and that is left unstated; keys are distinct.
#[verifier::external_body]
fn hash_map_pairs(m: std::collections::HashMap<String, String>) -> (r: Vec<(String, String)>)
    ensures
        r@.len() == m@.len(),
        forall|i: int|
            0 <= i < r@.len() ==> m@.contains_key(#[trigger] r@[i].0) && m@[r@[i].0] == r@[i].1,
        forall|k: String| #[trigger] m@.contains_key(k) ==> exists|i: int| 0 <= i < r@.len() && r@[i].0 == k,
        forall|i: int, j: int| 0 <= i < j < r@.len() ==> #[trigger] r@[i].0@ != #[trigger] r@[j].0@,
{
    m.into_iter().collect()
}

/// The map reached by setting each pair in order (later pairs win).
pub open spec fn pairs_map(ps: Seq<(Seq<char>, Seq<char>)>) -> Map<Seq<char>, Seq<char>>
    decreases ps.len(),
{
    if ps.len() == 0 {
        Map::empty()
    } else {
        pairs_map(ps.drop_last()).insert(ps.last().0, ps.last().1)
    }
}

/// Strongly-typed view over `PORTLESS_*` environment variables.
#[derive(Debug)]
pub struct Env {
    raw: TextMap<String>,
}

/// The view of a string-valued map.
pub open spec fn string_values(m: Map<Seq<char>, String>) -> Map<Seq<char>, Seq<char>> {
    m.map_values(|s: String| s@)
}

/// `key` has a value that is exactly `v`.
pub open spec fn is_value(vars: Map<Seq<char>, Seq<char>>, key: Seq<char>, v: Seq<char>) -> bool {
    vars.contains_key(key) && vars[key] == v
}

/// A `u16` parsed from the value of `key`, if it parses.
pub open spec fn u16_var(vars: Map<Seq<char>, Seq<char>>, key: Seq<char>) -> Option<u16> {
    if vars.contains_key(key) {
        match parse_uint(vars[key], u16::MAX as nat) {
            Ok(v) => Some(v as u16),
            Err(_) => None,
        }
    } else {
        None
    }
}

/// The value of `key`, if set.
pub open spec fn var(vars: Map<Seq<char>, Seq<char>>, key: Seq<char>) -> Option<Seq<char>> {
    if vars.contains_key(key) {
        Some(vars[key])
    } else {
        None
    }
}

/// The variables that `to_vec` passes on: all but the `PORTLESS_TAILSCALE*`
/// ones, except `PORTLESS_TAILSCALE_URL`.
#[verifier::opaque]
pub open spec fn passed_on(k: Seq<char>) -> bool {
    !starts_with(k, "PORTLESS_TAILSCALE"@) || k == "PORTLESS_TAILSCALE_URL"@
}

impl Env {
    /// The variables, by name.
    pub closed spec fn vars(&self) -> Map<Seq<char>, Seq<char>> {
        string_values(self.raw.map())
    }

    /// An environment with no variables.
    pub fn empty() -> (e: Self)
        ensures
            e.vars() == Map::<Seq<char>, Seq<char>>::empty(),
    {
        let e = Env { raw: TextMap::new() };
        assert(e.vars() =~= Map::<Seq<char>, Seq<char>>::empty());
        e
    }

    /// Construct an Env from a key/value map.
    pub fn from_map(raw: std::collections::HashMap<String, String>) -> (e: Self)
        ensures
            forall|k: String| #[trigger]
                raw@.contains_key(k) ==> e.vars().contains_key(k@) && e.vars()[k@] == raw@[k]@,
            forall|q: Seq<char>| #[trigger]
                e.vars().contains_key(q) ==> exists|k: String| raw@.contains_key(k) && k@ == q,
    {
        let ghost m = raw@;
        let pairs = hash_map_pairs(raw);
        let mut e = Env::empty();
        let mut i: usize = 0;
        let n = pairs.len();
        let mut pairs = pairs;
        let ghost ps = pairs@;
        while i < n
            invariant
                n == ps.len(),
                i <= n,
                pairs@ == ps.skip(i as int),
                forall|a: int, b: int| 0 <= a < b < ps.len() ==> #[trigger] ps[a].0@ != #[trigger] ps[b].0@,
                forall|a: int| 0 <= a < i ==> e.vars().contains_key(#[trigger] ps[a].0@) && e.vars()[ps[a].0@] == ps[a].1@,
                forall|q: Seq<char>| #[trigger] e.vars().contains_key(q) ==> exists|a: int| 0 <= a < i && ps[a].0@ == q,
            decreases n - i,
        {
            let (k, v) = pairs.remove(0);
            assert(ps.skip(i as int).remove(0) == ps.skip(i + 1));
            let ghost kv = k@;
            let ghost vv = v@;
            e.set(k, v);
            proof {
                assert forall|a: int| 0 <= a < i + 1 implies e.vars().contains_key(#[trigger] ps[a].0@) && e.vars()[ps[a].0@] == ps[a].1@ by {
                    if a < i {
                        assert(ps[a].0@ != ps[i as int].0@);
                    }
                }
                assert forall|q: Seq<char>| #[trigger] e.vars().contains_key(q) implies exists|a: int| 0 <= a < i + 1 && ps[a].0@ == q by {
                    if q == kv {
                        assert(ps[i as int].0@ == q);
                    }
                }
            }
            i += 1;
        }
        proof {
            assert forall|k: String| #[trigger] m.contains_key(k) implies e.vars().contains_key(k@) && e.vars()[k@] == m[k]@ by {
                let a = choose|a: int| 0 <= a < ps.len() && ps[a].0 == k;
                assert(e.vars().contains_key(ps[a].0@));
            }
            assert forall|q: Seq<char>| #[trigger] e.vars().contains_key(q) implies exists|k: String| m.contains_key(k) && k@ == q by {
                let a = choose|a: int| 0 <= a < i && ps[a].0@ == q;
                assert(m.contains_key(ps[a].0));
            }
        }
        e
    }

    /// Construct an Env from `(K, V)` pairs; a later pair replaces an
    /// earlier one with the same key.
    pub fn from_pairs<K: IntoText, V: IntoText>(pairs: Vec<(K, V)>) -> (e: Self)
        ensures
            e.vars() == pairs_map(
                pairs@.map_values(|p: (K, V)| (p.0.text_view(), p.1.text_view())),
            ),
    {
        let mut e = Env::empty();
        let ghost all = pairs@.map_values(|p: (K, V)| (p.0.text_view(), p.1.text_view()));
        let mut pairs = pairs;
        let ghost orig = pairs@;
        let n = pairs.len();
        let mut i: usize = 0;
        while i < n
            invariant
                n == orig.len(),
                all == orig.map_values(|p: (K, V)| (p.0.text_view(), p.1.text_view())),
                i <= n,
                pairs@ == orig.skip(i as int),
                e.vars() == pairs_map(all.take(i as int)),
            decreases n - i,
        {
            let (k, v) = pairs.remove(0);
            assert(orig.skip(i as int).remove(0) == orig.skip(i + 1));
            assert(all.take(i + 1).drop_last() == all.take(i as int));
            let ks = k.into_text();
            let vs = v.into_text();
            e.set(ks, vs);
            i += 1;
        }
        assert(all.take(n as int) == all);
        e
    }

    /// Set a variable.
    pub fn set(&mut self, key: String, value: String)
        ensures
            final(self).vars() == old(self).vars().insert(key@, value@),
    {
        let ghost k = key@;
        let ghost v = value@;
        self.raw.insert(key, value);
        assert(self.vars() =~= old(self).vars().insert(k, v));
    }

    /// Raw access.
    pub fn get(&self, key: &str) -> (r: Option<&str>)
        ensures
            match var(self.vars(), key@) {
                Some(v) => r is Some && r->Some_0@ == v,
                None => r is None,
            },
    {
        match self.raw.get(key) {
            Some(v) => Some(v.as_str()),
            None => None,
        }
    }

    /// Whether `key` is set to exactly `v`.
    fn is(&self, key: &str, v: &str) -> (r: bool)
        ensures
            r == is_value(self.vars(), key@, v@),
    {
        match self.get(key) {
            Some(x) => str_eq(x, v),
            None => false,
        }
    }

    /// `PORTLESS=0` disables the proxy.
    pub fn bypass(&self) -> (r: bool)
        ensures
            r == is_value(self.vars(), "PORTLESS"@, "0"@),
    {
        self.is("PORTLESS", "0")
    }

    /// `PORTLESS_PORT` (default 443 for HTTPS, 80 for HTTP), when it parses.
    pub fn port(&self) -> (r: Option<u16>)
        ensures
            r == u16_var(self.vars(), "PORTLESS_PORT"@),
    {
        match self.get("PORTLESS_PORT") {
            Some(s) => parse_u16(s),
            None => None,
        }
    }

    /// `PORTLESS_HTTPS=0` disables HTTPS.
    pub fn https_disabled(&self) -> (r: bool)
        ensures
            r == is_value(self.vars(), "PORTLESS_HTTPS"@, "0"@),
    {
        self.is("PORTLESS_HTTPS", "0")
    }

    /// `PORTLESS_HTTPS=1` enables HTTPS (default behaviour).
    pub fn https_forced(&self) -> (r: bool)
        ensures
            r == is_value(self.vars(), "PORTLESS_HTTPS"@, "1"@),
    {
        self.is("PORTLESS_HTTPS", "1")
    }

    /// `PORTLESS_APP_PORT`, when it parses.
    pub fn app_port(&self) -> (r: Option<u16>)
        ensures
            r == u16_var(self.vars(), "PORTLESS_APP_PORT"@),
    {
        match self.get("PORTLESS_APP_PORT") {
            Some(s) => parse_u16(s),
            None => None,
        }
    }

    /// `PORTLESS_LAN=1` enables LAN mode.
    pub fn lan(&self) -> (r: bool)
        ensures
            r == is_value(self.vars(), "PORTLESS_LAN"@, "1"@),
    {
        self.is("PORTLESS_LAN", "1")
    }

    /// `PORTLESS_LAN_IP`, as written: the text of the pinned LAN address.
    /// Reading it as an IP address (`std::net`) is the caller's business.
    pub fn lan_ip(&self) -> (r: Option<String>)
        ensures
            match var(self.vars(), "PORTLESS_LAN_IP"@) {
                Some(v) => r is Some && r->Some_0@ == v,
                None => r is None,
            },
    {
        match self.get("PORTLESS_LAN_IP") {
            Some(v) => Some(owned(v)),
            None => None,
        }
    }

    /// `PORTLESS_TLD`.
    pub fn tld(&self) -> (r: Option<&str>)
        ensures
            match var(self.vars(), "PORTLESS_TLD"@) {
                Some(v) => r is Some && r->Some_0@ == v,
                None => r is None,
            },
    {
        self.get("PORTLESS_TLD")
    }

    /// `PORTLESS_WILDCARD=1` enables wildcard routing.
    pub fn wildcard(&self) -> (r: bool)
        ensures
            r == is_value(self.vars(), "PORTLESS_WILDCARD"@, "1"@),
    {
        self.is("PORTLESS_WILDCARD", "1")
    }

    /// `PORTLESS_SYNC_HOSTS=0` disables /etc/hosts auto-sync.
    pub fn sync_hosts_disabled(&self) -> (r: bool)
        ensures
            r == is_value(self.vars(), "PORTLESS_SYNC_HOSTS"@, "0"@),
    {
        self.is("PORTLESS_SYNC_HOSTS", "0")
    }

    /// `PORTLESS_TAILSCALE=1` enables Tailscale sharing.
    pub fn tailscale(&self) -> (r: bool)
        ensures
            r == is_value(self.vars(), "PORTLESS_TAILSCALE"@, "1"@),
    {
        self.is("PORTLESS_TAILSCALE", "1")
    }

    /// `PORTLESS_FUNNEL=1` enables Tailscale Funnel.
    pub fn funnel(&self) -> (r: bool)
        ensures
            r == is_value(self.vars(), "PORTLESS_FUNNEL"@, "1"@),
    {
        self.is("PORTLESS_FUNNEL", "1")
    }

    /// An owned copy of a variable's value.
    fn owned_var(&self, key: &str) -> (r: Option<String>)
        ensures
            match var(self.vars(), key@) {
                Some(v) => r is Some && r->Some_0@ == v,
                None => r is None,
            },
    {
        match self.get(key) {
            Some(s) => Some(owned(s)),
            None => None,
        }
    }

    /// `PORTLESS_STATE_DIR` (a path).
    pub fn state_dir(&self) -> (r: Option<String>)
        ensures
            match var(self.vars(), "PORTLESS_STATE_DIR"@) {
                Some(v) => r is Some && r->Some_0@ == v,
                None => r is None,
            },
    {
        self.owned_var("PORTLESS_STATE_DIR")
    }

    /// `PORTLESS_URL` -- the public URL injected into the child.
    pub fn url(&self) -> (r: Option<&str>)
        ensures
            match var(self.vars(), "PORTLESS_URL"@) {
                Some(v) => r is Some && r->Some_0@ == v,
                None => r is None,
            },
    {
        self.get("PORTLESS_URL")
    }

    /// `PORTLESS_TAILSCALE_URL` -- the Tailscale URL injected into the child.
    pub fn tailscale_url(&self) -> (r: Option<&str>)
        ensures
            match var(self.vars(), "PORTLESS_TAILSCALE_URL"@) {
                Some(v) => r is Some && r->Some_0@ == v,
                None => r is None,
            },
    {
        self.get("PORTLESS_TAILSCALE_URL")
    }

    /// `PORTLESS_CERT` -- custom certificate path.
    pub fn cert(&self) -> (r: Option<String>)
        ensures
            match var(self.vars(), "PORTLESS_CERT"@) {
                Some(v) => r is Some && r->Some_0@ == v,
                None => r is None,
            },
    {
        self.owned_var("PORTLESS_CERT")
    }

    /// `PORTLESS_KEY` -- custom certificate key path.
    pub fn key(&self) -> (r: Option<String>)
        ensures
            match var(self.vars(), "PORTLESS_KEY"@) {
                Some(v) => r is Some && r->Some_0@ == v,
                None => r is None,
            },
    {
        self.owned_var("PORTLESS_KEY")
    }

    /// `PORTLESS_FORCE=1` enables route override.
    pub fn force(&self) -> (r: bool)
        ensures
            r == is_value(self.vars(), "PORTLESS_FORCE"@, "1"@),
    {
        self.is("PORTLESS_FORCE", "1")
    }

    /// `PORTLESS_FORCE_COLOR=1` forces ANSI color in the child even when
    /// no TTY is attached.
    pub fn tty_required(&self) -> (r: bool)
        ensures
            r == is_value(self.vars(), "PORTLESS_FORCE_COLOR"@, "1"@),
    {
        self.is("PORTLESS_FORCE_COLOR", "1")
    }

    /// The variables to pass to a child process, sorted by name: every
    /// variable except the `PORTLESS_TAILSCALE*` ones, though
    /// `PORTLESS_TAILSCALE_URL` is kept.
    pub fn to_vec(&self) -> (r: Vec<(String, String)>)
        ensures
            sorted_keys(r@),
            forall|i: int| 0 <= i < r@.len() ==> passed_on(#[trigger] r@[i].0@),
            forall|i: int| 0 <= i < r@.len() ==> self.vars().contains_key(#[trigger] r@[i].0@)
                && self.vars()[r@[i].0@] == r@[i].1@,
            forall|k: Seq<char>| #[trigger]
                self.vars().contains_key(k) && passed_on(k) ==> exists|i: int|
                    0 <= i < r@.len() && r@[i].0@ == k,
    {
        let mut r: Vec<(String, String)> = Vec::new();
        let n = self.raw.len();
        let ghost es = self.raw.entries_seq();
        let ghost v = pair_views(es);
        let prefix = crate::text::chars_of("PORTLESS_TAILSCALE");
        let mut i: usize = 0;
        while i < n
            invariant
                n == es.len(),
                es == self.raw.entries_seq(),
                v == pair_views(es),
                prefix@ == "PORTLESS_TAILSCALE"@,
                i <= n,
                pair_views(r@) == kept(v.take(i as int)),
            decreases n - i,
        {
            let e = self.raw.entry(i);
            let kv = crate::text::chars_of(e.0.as_str());
            let keep = !crate::text::vec_starts_with(&kv, &prefix) || str_eq(
                e.0.as_str(),
                "PORTLESS_TAILSCALE_URL",
            );
            proof {
                reveal(passed_on);
            }
            assert(v.take(i + 1).drop_last() == v.take(i as int));
            assert(v.take(i + 1).last() == (es[i as int].0@, es[i as int].1@));
            if keep {
                r.push((e.0.clone(), e.1.clone()));
            }
            i += 1;
        }
        proof {
            assert(v.take(n as int) == v);
            lemma_to_vec(es, pair_views(r@));
            assert forall|a: int| 0 <= a < r@.len() implies #[trigger] r@[a].0@ == pair_views(r@)[a].0
                && r@[a].1@ == pair_views(r@)[a].1 by {}
            assert forall|k: Seq<char>| #[trigger]
                self.vars().contains_key(k) && passed_on(k) implies exists|a: int| 0 <= a < r@.len() && r@[a].0@ == k by {
                let a = choose|a: int| 0 <= a < pair_views(r@).len() && pair_views(r@)[a].0 == k;
                assert(r@[a].0@ == pair_views(r@)[a].0);
            }
        }
        r
    }
}

/// The key and value views of each pair.
pub open spec fn pair_views(s: Seq<(String, String)>) -> Seq<(Seq<char>, Seq<char>)> {
    s.map_values(|p: (String, String)| (p.0@, p.1@))
}

/// Keys strictly increase.
pub open spec fn sorted_views(s: Seq<(Seq<char>, Seq<char>)>) -> bool {
    forall|a: int, b: int| 0 <= a < b < s.len() ==> lex_lt(#[trigger] s[a].0, #[trigger] s[b].0)
}

/// The pairs whose names [`passed_on`] admits, in their order.
pub open spec fn kept(s: Seq<(Seq<char>, Seq<char>)>) -> Seq<(Seq<char>, Seq<char>)>
    decreases s.len(),
{
    if s.len() == 0 {
        Seq::empty()
    } else if passed_on(s.last().0) {
        kept(s.drop_last()).push(s.last())
    } else {
        kept(s.drop_last())
    }
}

/// What the entries of a sorted map keep, by [`kept`].
proof fn lemma_to_vec(es: Seq<(String, String)>, rv: Seq<(Seq<char>, Seq<char>)>)
    requires
        sorted_keys(es),
        rv == kept(pair_views(es)),
    ensures
        sorted_views(rv),
        forall|a: int| 0 <= a < rv.len() ==> passed_on(#[trigger] rv[a].0),
        forall|a: int| 0 <= a < rv.len() ==> string_values(map_of(es)).contains_key(#[trigger] rv[a].0)
            && string_values(map_of(es))[rv[a].0] == rv[a].1,
        forall|k: Seq<char>| #[trigger] string_values(map_of(es)).contains_key(k) && passed_on(k)
            ==> exists|a: int| 0 <= a < rv.len() && rv[a].0 == k,
{
    let v = pair_views(es);
    lemma_kept_from(v);
    lemma_kept_all(v);
    assert(sorted_views(v)) by {
        assert forall|a: int, b: int| 0 <= a < b < v.len() implies lex_lt(#[trigger] v[a].0, #[trigger] v[b].0) by {
            assert(lex_lt(es[a].0@, es[b].0@));
        }
    }
    lemma_kept_sorted(v);
    assert forall|a: int| 0 <= a < rv.len() implies string_values(map_of(es)).contains_key(#[trigger] rv[a].0)
        && string_values(map_of(es))[rv[a].0] == rv[a].1 by {
        lemma_kept_entry(es, rv, a);
    }
    assert forall|k: Seq<char>| #[trigger] string_values(map_of(es)).contains_key(k) && passed_on(k)
        implies exists|a: int| 0 <= a < rv.len() && rv[a].0 == k by {
        lemma_kept_key(es, rv, k);
    }
}

/// A kept pair is the map's entry for its key.
proof fn lemma_kept_entry(es: Seq<(String, String)>, rv: Seq<(Seq<char>, Seq<char>)>, a: int)
    requires
        sorted_keys(es),
        rv == kept(pair_views(es)),
        0 <= a < rv.len(),
    ensures
        string_values(map_of(es)).contains_key(rv[a].0),
        string_values(map_of(es))[rv[a].0] == rv[a].1,
{
    let v = pair_views(es);
    lemma_kept_from(v);
    let b = choose|b: int| 0 <= b < v.len() && v[b] == #[trigger] rv[a];
    assert(v[b] == (es[b].0@, es[b].1@));
    crate::text_map::lemma_map_at(es, b);
}

/// An admitted key of the map is kept.
proof fn lemma_kept_key(es: Seq<(String, String)>, rv: Seq<(Seq<char>, Seq<char>)>, k: Seq<char>)
    requires
        rv == kept(pair_views(es)),
        map_of(es).contains_key(k),
        passed_on(k),
    ensures
        exists|a: int| 0 <= a < rv.len() && rv[a].0 == k,
{
    let v = pair_views(es);
    lemma_kept_all(v);
    let b = choose|b: int| 0 <= b < es.len() && es[b].0@ == k;
    assert(v[b] == (es[b].0@, es[b].1@));
    assert(passed_on(v[b].0));
    let a = choose|a: int| 0 <= a < rv.len() && #[trigger] rv[a] == v[b];
    assert(rv[a].0 == k);
}

/// Each pair that [`kept`] keeps is admitted and comes from `s`.
pub proof fn lemma_kept_from(s: Seq<(Seq<char>, Seq<char>)>)
    ensures
        forall|a: int| 0 <= a < kept(s).len() ==> passed_on(#[trigger] kept(s)[a].0),
        forall|a: int| 0 <= a < kept(s).len() ==> exists|b: int| 0 <= b < s.len() && s[b] == #[trigger] kept(s)[a],
    decreases s.len(),
{
    if s.len() > 0 {
        let t = s.drop_last();
        lemma_kept_from(t);
        let kt = kept(t);
        let ks = kept(s);
        assert forall|a: int| 0 <= a < ks.len() implies exists|b: int| 0 <= b < s.len() && s[b] == #[trigger] ks[a] by {
            if a < kt.len() {
                assert(ks[a] == kt[a]);
                let b = choose|b: int| 0 <= b < t.len() && t[b] == #[trigger] kt[a];
                assert(s[b] == t[b]);
            } else {
                assert(ks[a] == s[s.len() - 1]);
            }
        }
        assert forall|a: int| 0 <= a < ks.len() implies passed_on(#[trigger] ks[a].0) by {
            if a < kt.len() {
                assert(ks[a] == kt[a]);
            }
        }
    }
}

/// Every admitted pair of `s` is kept.
pub proof fn lemma_kept_all(s: Seq<(Seq<char>, Seq<char>)>)
    ensures
        forall|b: int| 0 <= b < s.len() && passed_on(#[trigger] s[b].0) ==> exists|a: int|
            0 <= a < kept(s).len() && #[trigger] kept(s)[a] == s[b],
    decreases s.len(),
{
    if s.len() > 0 {
        let t = s.drop_last();
        lemma_kept_all(t);
        let kt = kept(t);
        let ks = kept(s);
        assert forall|b: int| 0 <= b < s.len() && passed_on(#[trigger] s[b].0) implies exists|a: int|
            0 <= a < ks.len() && #[trigger] ks[a] == s[b] by {
            if b < t.len() {
                assert(s[b] == t[b]);
                assert(passed_on(t[b].0));
                let a = choose|a: int| 0 <= a < kt.len() && #[trigger] kt[a] == t[b];
                assert(ks[a] == kt[a]);
            } else {
                assert(ks[ks.len() - 1] == s[b]);
            }
        }
    }
}

/// [`kept`] keeps sorted input sorted.
pub proof fn lemma_kept_sorted(s: Seq<(Seq<char>, Seq<char>)>)
    requires
        sorted_views(s),
    ensures
        sorted_views(kept(s)),
    decreases s.len(),
{
    if s.len() > 0 {
        let t = s.drop_last();
        assert(sorted_views(t)) by {
            assert forall|a: int, b: int| 0 <= a < b < t.len() implies lex_lt(#[trigger] t[a].0, #[trigger] t[b].0) by {
                assert(t[a] == s[a] && t[b] == s[b]);
            }
        }
        lemma_kept_sorted(t);
        lemma_kept_from(t);
        let kt = kept(t);
        let ks = kept(s);
        assert forall|a: int, c: int| 0 <= a < c < ks.len() implies lex_lt(#[trigger] ks[a].0, #[trigger] ks[c].0) by {
            if c < kt.len() {
                assert(ks[a] == kt[a] && ks[c] == kt[c]);
            } else {
                assert(ks[a] == kt[a]);
                let b = choose|b: int| 0 <= b < t.len() && t[b] == #[trigger] kt[a];
                assert(s[b] == t[b]);
                assert(lex_lt(s[b].0, s[s.len() - 1].0));
            }
        }
    }
}

impl Default for Env {
    /// An environment with no variables.
    fn default() -> (e: Self)
        ensures
            e.vars() == Map::<Seq<char>, Seq<char>>::empty(),
    {
        Env::empty()
    }
}

/// Resolve the list of environment variables to inject into a child
/// process: just `PORTLESS_URL`.
pub fn child_env_for(url: &str) -> (r: Vec<(String, String)>)
    ensures
        r@.len() == 1,
        r@[0].0@ == "PORTLESS_URL"@,
        r@[0].1@ == url@,
{
    let mut r: Vec<(String, String)> = Vec::new();
    r.push((owned("PORTLESS_URL"), owned(url)));
    r
}

} // verus!
