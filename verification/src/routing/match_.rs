//! Routing: match an incoming request hostname to a registered route.

use vstd::prelude::*;
use crate::routing::hostname::{Host, lemma_parent_shorter, parent_of};
use crate::routing::tld::Tld;
use crate::text::{IntoText, str_eq};

verus! {

/// The current time as RFC 3339 text, from `chrono::Utc::now().to_rfc3339()`.
/// Nothing is claimed of the text: it depends on the clock.
#[verifier::external_body]
fn now_rfc3339() -> String {
    chrono::Utc::now().to_rfc3339()
}

/// A registered route: hostname → backend port + metadata.
#[derive(Debug)]
pub struct Route {
    /// Fully-qualified hostname (e.g. `myapp.localhost`).
    pub hostname: String,
    /// Backend TCP port on `127.0.0.1` where the app is listening.
    pub port: u16,
    /// Owning PID (0 for static aliases).
    pub pid: u32,
    /// Optional command (for diagnostics).
    pub command: Option<String>,
    /// Arguments of the command (for diagnostics).
    pub args: Vec<String>,
    /// Creation timestamp (RFC 3339).
    pub started_at: String,
    /// Whether this is a static alias (Docker, etc.).
    pub alias: bool,
}

/// The mathematical value of a [`Route`].
pub struct RouteView {
    /// Hostname.
    pub hostname: Seq<char>,
    /// Backend port.
    pub port: u16,
    /// Owning PID.
    pub pid: u32,
    /// Command.
    pub command: Option<Seq<char>>,
    /// Arguments.
    pub args: Seq<Seq<char>>,
    /// Creation timestamp.
    pub started_at: Seq<char>,
    /// Static alias.
    pub alias: bool,
}

/// The view of an optional string.
pub open spec fn opt_view(o: Option<String>) -> Option<Seq<char>> {
    match o {
        Some(s) => Some(s@),
        None => None,
    }
}

/// The views of a list of strings.
pub open spec fn strings_view(v: Seq<String>) -> Seq<Seq<char>> {
    v.map_values(|s: String| s@)
}

impl View for Route {
    type V = RouteView;

    open spec fn view(&self) -> RouteView {
        RouteView {
            hostname: self.hostname@,
            port: self.port,
            pid: self.pid,
            command: opt_view(self.command),
            args: strings_view(self.args@),
            started_at: self.started_at@,
            alias: self.alias,
        }
    }
}

/// A copy of a string list with the same contents.
pub fn clone_strings(v: &Vec<String>) -> (r: Vec<String>)
    ensures
        strings_view(r@) == strings_view(v@),
{
    let mut r: Vec<String> = Vec::new();
    let mut i: usize = 0;
    while i < v.len()
        invariant
            i <= v.len(),
            strings_view(r@) == strings_view(v@.take(i as int)),
        decreases v.len() - i,
    {
        r.push(v[i].clone());
        i += 1;
        assert(strings_view(v@.take(i as int)) =~= strings_view(v@.take(i - 1)).push(v@[i - 1]@));
        assert(strings_view(r@) =~= strings_view(v@.take(i - 1)).push(v@[i - 1]@));
    }
    assert(v@.take(v.len() as int) == v@);
    r
}

/// A copy of an optional string with the same contents.
pub fn clone_opt(o: &Option<String>) -> (r: Option<String>)
    ensures
        opt_view(r) == opt_view(*o),
{
    match o {
        Some(s) => Some(s.clone()),
        None => None,
    }
}

impl Route {
    /// Construct a new dynamic route, stamped with the current time.
    pub fn new<S: IntoText>(
        hostname: S,
        port: u16,
        pid: u32,
        command: Option<String>,
        args: Vec<String>,
    ) -> (r: Self)
        ensures
            r.hostname@ == hostname.text_view(),
            r.port == port,
            r.pid == pid,
            r.command == command,
            r.args == args,
            !r.alias,
    {
        Route {
            hostname: hostname.into_text(),
            port,
            pid,
            command,
            args,
            started_at: now_rfc3339(),
            alias: false,
        }
    }

    /// Construct a new alias route (no owning process), stamped with the
    /// current time.
    pub fn alias<S: IntoText>(hostname: S, port: u16) -> (r: Self)
        ensures
            r.hostname@ == hostname.text_view(),
            r.port == port,
            r.pid == 0,
            r.command is None,
            r.args@.len() == 0,
            r.alias,
    {
        Route {
            hostname: hostname.into_text(),
            port,
            pid: 0,
            command: None,
            args: Vec::new(),
            started_at: now_rfc3339(),
            alias: true,
        }
    }

    /// Whether the owning process counts as alive: aliases and PID 0 always
    /// do; otherwise `pid_alive` is asked about the PID.
    pub fn is_alive<F: FnOnce(u32) -> bool>(&self, pid_alive: F) -> (r: bool)
        requires
            !self.alias && self.pid != 0 ==> pid_alive.requires((self.pid,)),
        ensures
            self.alias || self.pid == 0 ==> r,
            !self.alias && self.pid != 0 ==> pid_alive.ensures((self.pid,), r),
    {
        if self.alias || self.pid == 0 {
            true
        } else {
            pid_alive(self.pid)
        }
    }

    /// Returns true if the hostname is exactly `host`.
    pub fn matches(&self, host: &Host) -> (r: bool)
        ensures
            r == (self.hostname@ == host@),
    {
        str_eq(self.hostname.as_str(), host.as_str())
    }

    /// A copy of this route.
    pub fn duplicate(&self) -> (r: Self)
        ensures
            r@ == self@,
    {
        Route {
            hostname: self.hostname.clone(),
            port: self.port,
            pid: self.pid,
            command: clone_opt(&self.command),
            args: clone_strings(&self.args),
            started_at: self.started_at.clone(),
            alias: self.alias,
        }
    }
}

/// Result of a routing lookup.
#[derive(Debug)]
pub struct MatchResult {
    /// The matched route.
    pub route: Route,
    /// Whether the match was exact (true) or a wildcard fallback (false).
    pub exact: bool,
}

impl MatchResult {
    /// The hostname that should be used when generating TLS certs.
    pub fn hostname(&self) -> (r: &str)
        ensures
            r@ == self.route.hostname@,
    {
        self.route.hostname.as_str()
    }

    /// The backend port.
    pub fn port(&self) -> (r: u16)
        ensures
            r == self.route.port,
    {
        self.route.port
    }
}

// ---------------------------------------------------------------------------
// Route tables
// ---------------------------------------------------------------------------

/// No two routes share a hostname.
pub open spec fn distinct_hosts(s: Seq<Route>) -> bool {
    forall|i: int, j: int|
        0 <= i < s.len() && 0 <= j < s.len() && i != j ==> #[trigger] s[i].hostname@
            != #[trigger] s[j].hostname@
}

/// Some route of `s` has hostname `k`.
pub open spec fn has_host(s: Seq<Route>, k: Seq<char>) -> bool {
    exists|i: int| 0 <= i < s.len() && s[i].hostname@ == k
}

/// The table of `s`: each hostname mapped to its route.
pub open spec fn table_of(s: Seq<Route>) -> Map<Seq<char>, RouteView> {
    Map::new(
        |k: Seq<char>| has_host(s, k),
        |k: Seq<char>| s[choose|i: int| 0 <= i < s.len() && s[i].hostname@ == k]@,
    )
}

/// In a table without duplicates, the route at `i` is the one the table
/// holds for its hostname.
pub proof fn lemma_table_at(s: Seq<Route>, i: int)
    requires
        distinct_hosts(s),
        0 <= i < s.len(),
    ensures
        table_of(s).contains_key(s[i].hostname@),
        table_of(s)[s[i].hostname@] == s[i]@,
{
    let k = s[i].hostname@;
    assert(has_host(s, k));
    let j = choose|j: int| 0 <= j < s.len() && s[j].hostname@ == k;
    assert(j == i);
}

/// The number of entries of a table without duplicates.
pub proof fn lemma_table_len(s: Seq<Route>)
    requires
        distinct_hosts(s),
    ensures
        table_of(s).dom().finite(),
        table_of(s).len() == s.len(),
{
    let keys = s.map_values(|r: Route| r.hostname@);
    assert(keys.no_duplicates()) by {
        assert forall|i: int, j: int|
            0 <= i < keys.len() && 0 <= j < keys.len() && i != j implies keys[i] != keys[j] by {
            assert(keys[i] == s[i].hostname@);
            assert(keys[j] == s[j].hostname@);
        }
    }
    keys.unique_seq_to_set();
    assert(table_of(s).dom() =~= keys.to_set()) by {
        assert forall|k: Seq<char>| table_of(s).dom().contains(k) implies keys.to_set().contains(
            k,
        ) by {
            let i = choose|i: int| 0 <= i < s.len() && s[i].hostname@ == k;
            assert(keys[i] == k);
        }
        assert forall|k: Seq<char>| keys.to_set().contains(k) implies table_of(s).dom().contains(
            k,
        ) by {
            let i = choose|i: int| 0 <= i < keys.len() && keys[i] == k;
            assert(s[i].hostname@ == k);
        }
    }
}

/// Replacing the route at `i` by one with the same hostname replaces that
/// table entry.
pub proof fn lemma_table_update(s: Seq<Route>, i: int, r: Route)
    requires
        distinct_hosts(s),
        0 <= i < s.len(),
        r.hostname@ == s[i].hostname@,
    ensures
        distinct_hosts(s.update(i, r)),
        table_of(s.update(i, r)) == table_of(s).insert(r.hostname@, r@),
{
    let t = s.update(i, r);
    assert forall|a: int, b: int|
        0 <= a < t.len() && 0 <= b < t.len() && a != b implies #[trigger] t[a].hostname@
        != #[trigger] t[b].hostname@ by {
        assert(t[a].hostname@ == s[a].hostname@);
        assert(t[b].hostname@ == s[b].hostname@);
    }
    assert forall|k: Seq<char>| #[trigger] has_host(t, k) == has_host(s, k) by {
        if has_host(t, k) {
            let j = choose|j: int| 0 <= j < t.len() && t[j].hostname@ == k;
            assert(s[j].hostname@ == k);
        }
        if has_host(s, k) {
            let j = choose|j: int| 0 <= j < s.len() && s[j].hostname@ == k;
            assert(t[j].hostname@ == k);
        }
    }
    assert(table_of(t) =~= table_of(s).insert(r.hostname@, r@)) by {
        assert forall|k: Seq<char>| #[trigger] table_of(t).contains_key(k) implies table_of(t)[k]
            == table_of(s).insert(r.hostname@, r@)[k] by {
            let j = choose|j: int| 0 <= j < t.len() && t[j].hostname@ == k;
            lemma_table_at(t, j);
            if j != i {
                lemma_table_at(s, j);
            }
        }
    }
}

/// Appending a route with a new hostname adds that table entry.
pub proof fn lemma_table_push(s: Seq<Route>, r: Route)
    requires
        distinct_hosts(s),
        !has_host(s, r.hostname@),
    ensures
        distinct_hosts(s.push(r)),
        table_of(s.push(r)) == table_of(s).insert(r.hostname@, r@),
{
    let t = s.push(r);
    assert forall|a: int, b: int|
        0 <= a < t.len() && 0 <= b < t.len() && a != b implies #[trigger] t[a].hostname@
        != #[trigger] t[b].hostname@ by {
        if a < s.len() && b < s.len() {
            assert(t[a] == s[a]);
            assert(t[b] == s[b]);
        } else if a < s.len() {
            assert(t[a] == s[a]);
        } else {
            assert(t[b] == s[b]);
        }
    }
    assert(table_of(t) =~= table_of(s).insert(r.hostname@, r@)) by {
        assert forall|k: Seq<char>| #[trigger]
            table_of(s).insert(r.hostname@, r@).contains_key(k) implies has_host(t, k) by {
            if k == r.hostname@ {
                assert(t[s.len() as int] == r);
            } else {
                let j = choose|j: int| 0 <= j < s.len() && s[j].hostname@ == k;
                assert(t[j] == s[j]);
            }
        }
        assert forall|k: Seq<char>| #[trigger] table_of(t).contains_key(k) implies table_of(
            s,
        ).insert(r.hostname@, r@).contains_key(k) && table_of(t)[k] == table_of(s).insert(
            r.hostname@,
            r@,
        )[k] by {
            let j = choose|j: int| 0 <= j < t.len() && t[j].hostname@ == k;
            lemma_table_at(t, j);
            if j < s.len() {
                assert(t[j] == s[j]);
                lemma_table_at(s, j);
            }
        }
    }
}

/// Removing the route at `i` removes its table entry.
pub proof fn lemma_table_remove(s: Seq<Route>, i: int)
    requires
        distinct_hosts(s),
        0 <= i < s.len(),
    ensures
        distinct_hosts(s.remove(i)),
        table_of(s.remove(i)) == table_of(s).remove(s[i].hostname@),
{
    let t = s.remove(i);
    let k0 = s[i].hostname@;
    assert forall|a: int| 0 <= a < t.len() implies #[trigger] t[a] == s[if a < i {
        a
    } else {
        a + 1
    }] by {}
    assert forall|a: int, b: int|
        0 <= a < t.len() && 0 <= b < t.len() && a != b implies #[trigger] t[a].hostname@
        != #[trigger] t[b].hostname@ by {
        let a1 = if a < i {
            a
        } else {
            a + 1
        };
        let b1 = if b < i {
            b
        } else {
            b + 1
        };
        assert(t[a] == s[a1]);
        assert(t[b] == s[b1]);
    }
    assert(table_of(t) =~= table_of(s).remove(k0)) by {
        assert forall|k: Seq<char>| #[trigger]
            table_of(s).remove(k0).contains_key(k) implies has_host(t, k) by {
            let j = choose|j: int| 0 <= j < s.len() && s[j].hostname@ == k;
            assert(j != i);
            let j1 = if j < i {
                j
            } else {
                j - 1
            };
            assert(t[j1] == s[j]);
        }
        assert forall|k: Seq<char>| #[trigger] table_of(t).contains_key(k) implies table_of(
            s,
        ).remove(k0).contains_key(k) && table_of(t)[k] == table_of(s).remove(k0)[k] by {
            let j = choose|j: int| 0 <= j < t.len() && t[j].hostname@ == k;
            lemma_table_at(t, j);
            let j1 = if j < i {
                j
            } else {
                j + 1
            };
            assert(t[j] == s[j1]);
            lemma_table_at(s, j1);
        }
    }
}

/// The nearest proper ancestor of `h` (stripping labels from the left) that
/// has an entry in `t`.
pub open spec fn ancestor_match(t: Map<Seq<char>, RouteView>, h: Seq<char>) -> Option<RouteView>
    decreases h.len(),
{
    match parent_of(h) {
        None => None,
        Some(p) => {
            proof {
                lemma_parent_shorter(h);
            }
            if t.contains_key(p) {
                Some(t[p])
            } else {
                ancestor_match(t, p)
            }
        },
    }
}

/// What `resolve` answers for `h`: the exact entry if there is one, else
/// (with wildcard routing on) the nearest ancestor's entry. The flag is
/// `true` for an exact match.
pub open spec fn resolve_spec(t: Map<Seq<char>, RouteView>, wildcard: bool, h: Seq<char>) -> Option<
    (RouteView, bool),
> {
    if t.contains_key(h) {
        Some((t[h], true))
    } else if wildcard {
        match ancestor_match(t, h) {
            Some(r) => Some((r, false)),
            None => None,
        }
    } else {
        None
    }
}

/// An exact registration always wins: whatever the wildcard setting, a
/// hostname that has an entry resolves to that entry, as an exact match.
pub proof fn lemma_resolve_exact_first(t: Map<Seq<char>, RouteView>, wildcard: bool, h: Seq<char>)
    requires
        t.contains_key(h),
    ensures
        resolve_spec(t, wildcard, h) == Some((t[h], true)),
{
}

/// Without wildcard routing there is no fallback: a hostname resolves
/// exactly when it has an entry of its own.
pub proof fn lemma_resolve_without_wildcard(t: Map<Seq<char>, RouteView>, h: Seq<char>)
    ensures
        resolve_spec(t, false, h) == if t.contains_key(h) {
            Some((t[h], true))
        } else {
            None
        },
{
}

/// With wildcard routing, a subdomain that has no entry of its own falls
/// back to its parent's entry, as a non-exact match.
pub proof fn lemma_resolve_wildcard_parent(
    t: Map<Seq<char>, RouteView>,
    h: Seq<char>,
    p: Seq<char>,
)
    requires
        !t.contains_key(h),
        parent_of(h) == Some(p),
        t.contains_key(p),
    ensures
        resolve_spec(t, true, h) == Some((t[p], false)),
{
}

/// Whatever a hostname resolves to is a registered entry, under the
/// hostname itself when the match is exact.
pub proof fn lemma_resolve_registered(t: Map<Seq<char>, RouteView>, wildcard: bool, h: Seq<char>)
    ensures
        resolve_spec(t, wildcard, h) matches Some((r, exact)) ==> (exists|k: Seq<char>|
            #[trigger] t.contains_key(k) && t[k] == r) && (exact ==> t.contains_key(h) && t[h]
            == r),
{
    if !t.contains_key(h) && wildcard {
        lemma_ancestor_registered(t, h);
    }
}

/// The ancestor entry found for `h` is registered.
pub proof fn lemma_ancestor_registered(t: Map<Seq<char>, RouteView>, h: Seq<char>)
    ensures
        ancestor_match(t, h) matches Some(r) ==> exists|k: Seq<char>|
            #[trigger] t.contains_key(k) && t[k] == r,
    decreases h.len(),
{
    match parent_of(h) {
        None => {},
        Some(p) => {
            lemma_parent_shorter(h);
            if !t.contains_key(p) {
                lemma_ancestor_registered(t, p);
            }
        },
    }
}

/// A hostname just registered resolves to its new entry, exactly.
pub proof fn lemma_insert_then_resolve(
    t: Map<Seq<char>, RouteView>,
    wildcard: bool,
    k: Seq<char>,
    v: RouteView,
)
    ensures
        resolve_spec(t.insert(k, v), wildcard, k) == Some((v, true)),
{
}

/// A hostname just removed no longer resolves exactly; without wildcard
/// routing it does not resolve at all.
pub proof fn lemma_remove_then_resolve(t: Map<Seq<char>, RouteView>, wildcard: bool, k: Seq<char>)
    ensures
        !(resolve_spec(t.remove(k), wildcard, k) matches Some((_, true))),
        !wildcard ==> resolve_spec(t.remove(k), wildcard, k) is None,
{
}

// ---------------------------------------------------------------------------
// The concurrent map that holds the routes
// ---------------------------------------------------------------------------

/// `dashmap::DashMap`, carried opaquely.
#[verifier::external_type_specification]
#[verifier::external_body]
#[verifier::reject_recursive_types(K)]
#[verifier::reject_recursive_types(V)]
#[verifier::reject_recursive_types(S)]
pub struct ExDashMap<K, V, S>(dashmap::DashMap<K, V, S>);

/// The entries of a map from hostnames to routes: each key's text mapped
/// to the value of its route.
pub uninterp spec fn route_map(m: dashmap::DashMap<String, Route>) -> Map<Seq<char>, RouteView>;

/// `DashMap::new`: a map with no entries.
#[verifier::external_body]
fn map_new() -> (r: dashmap::DashMap<String, Route>)
    ensures
        route_map(r).dom() == Set::<Seq<char>>::empty(),
{
    dashmap::DashMap::new()
}

/// `DashMap::insert` under the route's hostname: that key now maps to the
/// route, replacing any earlier value; the other entries stay.
#[verifier::external_body]
fn map_insert(m: &mut dashmap::DashMap<String, Route>, route: Route)
    ensures
        route_map(*final(m)) == route_map(*old(m)).insert(route.hostname@, route@),
{
    let key = route.hostname.clone();
    m.insert(key, route);
}

/// `DashMap::remove`: the key's entry goes and its value is returned;
/// the other entries stay.
#[verifier::external_body]
fn map_remove(m: &mut dashmap::DashMap<String, Route>, key: &str) -> (r: Option<Route>)
    ensures
        route_map(*final(m)) == route_map(*old(m)).remove(key@),
        r is Some <==> route_map(*old(m)).contains_key(key@),
        r matches Some(x) ==> x@ == route_map(*old(m))[key@],
{
    m.remove(key).map(|(_, v)| v)
}

/// `DashMap::view`: the value under `key`, copied by [`Route::duplicate`]
/// (the closure handed to `view`), if the key is there.
#[verifier::external_body]
fn map_get(m: &dashmap::DashMap<String, Route>, key: &str) -> (r: Option<Route>)
    ensures
        r is Some <==> route_map(*m).contains_key(key@),
        r matches Some(x) ==> x@ == route_map(*m)[key@],
{
    m.view(key, |_, v| v.duplicate())
}

/// `DashMap::contains_key`.
#[verifier::external_body]
fn map_contains(m: &dashmap::DashMap<String, Route>, key: &str) -> (r: bool)
    ensures
        r == route_map(*m).contains_key(key@),
{
    m.contains_key(key)
}

/// `DashMap::len`: the number of entries.
#[verifier::external_body]
fn map_len(m: &dashmap::DashMap<String, Route>) -> (n: usize)
    ensures
        n == route_map(*m).len(),
{
    m.len()
}

/// `DashMap::iter`: every key once, cloned, in an order that the map's
/// hasher decides and that is left unstated.
#[verifier::external_body]
fn map_keys(m: &dashmap::DashMap<String, Route>) -> (r: Vec<String>)
    ensures
        r@.len() == route_map(*m).len(),
        forall|i: int| 0 <= i < r@.len() ==> route_map(*m).contains_key(#[trigger] r@[i]@),
        forall|k: Seq<char>| #[trigger]
            route_map(*m).contains_key(k) ==> exists|i: int| 0 <= i < r@.len() && r@[i]@ == k,
        forall|i: int, j: int| 0 <= i < j < r@.len() ==> #[trigger] r@[i]@ != #[trigger] r@[j]@,
{
    m.iter().map(|e| e.key().clone()).collect()
}

/// Every entry sits under its own route's hostname.
pub open spec fn keyed(t: Map<Seq<char>, RouteView>) -> bool {
    forall|k: Seq<char>| #[trigger] t.contains_key(k) ==> t[k].hostname == k
}

/// Route table with exact and wildcard lookup, held in a concurrent map
/// keyed by hostname.
#[derive(Debug)]
pub struct Router {
    map: dashmap::DashMap<String, Route>,
    wildcard: bool,
    tld: Tld,
}

impl Router {
    /// Each route sits under its own hostname, and there are finitely many.
    #[verifier::type_invariant]
    spec fn inv(self) -> bool {
        keyed(route_map(self.map)) && route_map(self.map).dom().finite()
    }

    /// Each registered hostname mapped to its route.
    pub closed spec fn table(&self) -> Map<Seq<char>, RouteView> {
        route_map(self.map)
    }

    /// Whether wildcard routing is on.
    pub closed spec fn wildcard_on(&self) -> bool {
        self.wildcard
    }

    /// The configured TLD.
    pub closed spec fn tld_view(&self) -> Seq<char> {
        self.tld@
    }

    /// Construct an empty router (wildcard routing off, TLD `localhost`).
    pub fn new() -> (r: Self)
        ensures
            r.table() == Map::<Seq<char>, RouteView>::empty(),
            !r.wildcard_on(),
            r.tld_view() == "localhost"@,
    {
        let map = map_new();
        assert(route_map(map) =~= Map::<Seq<char>, RouteView>::empty());
        Router { map, wildcard: false, tld: Tld::default() }
    }

    /// Construct a router pre-populated with the given routes; a later route
    /// replaces an earlier one with the same hostname.
    pub fn with_routes(routes: Vec<Route>) -> (r: Self)
        ensures
            r.table() == table_after_inserts(Map::empty(), routes@),
            !r.wildcard_on(),
            r.tld_view() == "localhost"@,
    {
        let mut r = Router::new();
        let mut routes = routes;
        let ghost all = routes@;
        let mut i: usize = 0;
        let n = routes.len();
        while i < n
            invariant
                n == all.len(),
                i <= n,
                routes@ == all.skip(i as int),
                r.table() == table_after_inserts(Map::empty(), all.take(i as int)),
                !r.wildcard_on(),
                r.tld_view() == "localhost"@,
            decreases n - i,
        {
            let route = routes.remove(0);
            assert(route == all[i as int]);
            assert(all.take(i + 1).drop_last() == all.take(i as int));
            assert(all.skip(i as int).remove(0) == all.skip(i + 1));
            r.insert(route);
            i += 1;
        }
        assert(all.take(n as int) == all);
        r
    }

    /// Configure the TLD.
    pub fn set_tld(&mut self, tld: Tld)
        ensures
            final(self).tld_view() == tld@,
            final(self).table() == old(self).table(),
            final(self).wildcard_on() == old(self).wildcard_on(),
    {
        proof {
            use_type_invariant(&*self);
        }
        self.tld = tld;
    }

    /// The current TLD.
    pub fn tld(&self) -> (t: Tld)
        ensures
            t@ == self.tld_view(),
    {
        self.tld.copy()
    }

    /// Enable / disable wildcard routing.
    pub fn set_wildcard(&mut self, on: bool)
        ensures
            final(self).wildcard_on() == on,
            final(self).table() == old(self).table(),
            final(self).tld_view() == old(self).tld_view(),
    {
        proof {
            use_type_invariant(&*self);
        }
        self.wildcard = on;
    }

    /// Whether wildcard routing is enabled.
    pub fn is_wildcard(&self) -> (r: bool)
        ensures
            r == self.wildcard_on(),
    {
        self.wildcard
    }

    /// Insert a route. Overwrites any existing route with the same hostname.
    pub fn insert(&mut self, route: Route)
        ensures
            final(self).table() == old(self).table().insert(route.hostname@, route@),
            final(self).wildcard_on() == old(self).wildcard_on(),
            final(self).tld_view() == old(self).tld_view(),
    {
        proof {
            use_type_invariant(&*self);
        }
        let mut m = map_new();
        std::mem::swap(&mut m, &mut self.map);
        map_insert(&mut m, route);
        self.map = m;
    }

    /// Remove a route by hostname. Returns the removed route, if any.
    pub fn remove(&mut self, hostname: &str) -> (r: Option<Route>)
        ensures
            final(self).table() == old(self).table().remove(hostname@),
            r is Some <==> old(self).table().contains_key(hostname@),
            r matches Some(x) ==> x@ == old(self).table()[hostname@],
            final(self).wildcard_on() == old(self).wildcard_on(),
            final(self).tld_view() == old(self).tld_view(),
    {
        proof {
            use_type_invariant(&*self);
        }
        let mut m = map_new();
        std::mem::swap(&mut m, &mut self.map);
        let r = map_remove(&mut m, hostname);
        self.map = m;
        r
    }

    /// Get a copy of the exact-match route.
    pub fn get(&self, hostname: &str) -> (r: Option<Route>)
        ensures
            r is Some <==> self.table().contains_key(hostname@),
            r matches Some(x) ==> x@ == self.table()[hostname@],
    {
        map_get(&self.map, hostname)
    }

    /// Every entry once, its hostname and a copy of its route, in the
    /// map's order.
    fn entries(&self) -> (r: Vec<(String, Route)>)
        ensures
            r@.len() == self.table().len(),
            forall|i: int|
                0 <= i < r@.len() ==> self.table().contains_key(#[trigger] r@[i].0@) && self.table()[r@[i].0@]
                    == r@[i].1@,
            forall|k: Seq<char>| #[trigger]
                self.table().contains_key(k) ==> exists|i: int| 0 <= i < r@.len() && r@[i].0@ == k,
            forall|i: int, j: int| 0 <= i < j < r@.len() ==> #[trigger] r@[i].0@ != #[trigger] r@[j].0@,
    {
        let keys = map_keys(&self.map);
        let ghost t = self.table();
        let mut r: Vec<(String, Route)> = Vec::new();
        let mut i: usize = 0;
        while i < keys.len()
            invariant
                t == route_map(self.map),
                i <= keys@.len(),
                r@.len() == i,
                forall|j: int| 0 <= j < i ==> (#[trigger] r@[j]).0@ == keys@[j]@ && t[keys@[j]@] == r@[j].1@,
                forall|j: int| 0 <= j < keys@.len() ==> t.contains_key(#[trigger] keys@[j]@),
            decreases keys.len() - i,
        {
            let k = keys[i].clone();
            assert(t.contains_key(keys@[i as int]@));
            match map_get(&self.map, k.as_str()) {
                Some(route) => {
                    r.push((k, route));
                },
                None => {
                    assert(false);
                },
            }
            i += 1;
        }
        proof {
            assert forall|k: Seq<char>| #[trigger] t.contains_key(k) implies exists|i: int|
                0 <= i < r@.len() && r@[i].0@ == k by {
                let j = choose|j: int| 0 <= j < keys@.len() && keys@[j]@ == k;
                assert(r@[j].0@ == keys@[j]@);
            }
            assert forall|a: int, b: int| 0 <= a < b < r@.len() implies #[trigger] r@[a].0@
                != #[trigger] r@[b].0@ by {
                assert(r@[a].0@ == keys@[a]@);
                assert(r@[b].0@ == keys@[b]@);
            }
        }
        r
    }

    /// List all registered routes.
    pub fn list(&self) -> (r: Vec<Route>)
        ensures
            distinct_hosts(r@),
            table_of(r@) == self.table(),
            r@.len() == self.table().len(),
    {
        proof {
            use_type_invariant(self);
        }
        let ghost t = self.table();
        let pairs = self.entries();
        let mut r: Vec<Route> = Vec::new();
        let mut i: usize = 0;
        while i < pairs.len()
            invariant
                i <= pairs@.len(),
                r@.len() == i,
                forall|j: int| 0 <= j < i ==> (#[trigger] r@[j])@ == pairs@[j].1@,
            decreases pairs.len() - i,
        {
            r.push(pairs[i].1.duplicate());
            i += 1;
        }
        proof {
            assert forall|j: int| 0 <= j < r@.len() implies (#[trigger] r@[j]).hostname@ == pairs@[j].0@ by {
                assert(t.contains_key(pairs@[j].0@));
                assert(r@[j]@ == pairs@[j].1@);
            }
            assert(distinct_hosts(r@)) by {
                assert forall|a: int, b: int|
                    0 <= a < r@.len() && 0 <= b < r@.len() && a != b implies #[trigger] r@[a].hostname@
                    != #[trigger] r@[b].hostname@ by {
                    assert(r@[a].hostname@ == pairs@[a].0@);
                    assert(r@[b].hostname@ == pairs@[b].0@);
                    if a < b {
                        assert(pairs@[a].0@ != pairs@[b].0@);
                    } else {
                        assert(pairs@[b].0@ != pairs@[a].0@);
                    }
                }
            }
            assert(table_of(r@) =~= t) by {
                assert forall|k: Seq<char>| #[trigger] has_host(r@, k) == t.contains_key(k) by {
                    if has_host(r@, k) {
                        let j = choose|j: int| 0 <= j < r@.len() && r@[j].hostname@ == k;
                        assert(r@[j].hostname@ == pairs@[j].0@);
                    }
                    if t.contains_key(k) {
                        let j = choose|j: int| 0 <= j < pairs@.len() && pairs@[j].0@ == k;
                        assert(r@[j].hostname@ == pairs@[j].0@);
                    }
                }
                assert forall|k: Seq<char>| #[trigger] table_of(r@).contains_key(k) implies table_of(r@)[k]
                    == t[k] by {
                    let j = choose|j: int| 0 <= j < r@.len() && r@[j].hostname@ == k;
                    lemma_table_at(r@, j);
                    assert(r@[j].hostname@ == pairs@[j].0@);
                }
            }
        }
        r
    }

    /// Number of registered routes.
    pub fn len(&self) -> (n: usize)
        ensures
            n == self.table().len(),
    {
        map_len(&self.map)
    }

    /// Returns true if there are no registered routes.
    pub fn is_empty(&self) -> (r: bool)
        ensures
            r == (self.table().len() == 0),
    {
        self.len() == 0
    }

    /// Returns true if a route exists for the given hostname.
    pub fn contains(&self, hostname: &str) -> (r: bool)
        ensures
            r == self.table().contains_key(hostname@),
    {
        map_contains(&self.map, hostname)
    }

    /// Match a hostname to a route. Tries an exact match first, then
    /// (when wildcard routing is enabled) strips subdomains until it finds a
    /// registered parent.
    pub fn resolve(&self, host: &Host) -> (r: Option<MatchResult>)
        ensures
            match resolve_spec(self.table(), self.wildcard_on(), host@) {
                Some((rv, exact)) => r is Some && r->Some_0.route@ == rv && r->Some_0.exact
                    == exact,
                None => r is None,
            },
    {
        if let Some(route) = self.get(host.as_str()) {
            return Some(MatchResult { route, exact: true });
        }
        if self.wildcard {
            let mut current = host.parent();
            let ghost start = host@;
            assert(ancestor_match(self.table(), start) == match parent_of(start) {
                None => None,
                Some(p) => if self.table().contains_key(p) {
                    Some(self.table()[p])
                } else {
                    ancestor_match(self.table(), p)
                },
            });
            while current.is_some()
                invariant
                    self.wildcard_on(),
                    start == host@,
                    !self.table().contains_key(start),
                    match current {
                        None => ancestor_match(self.table(), start) is None,
                        Some(c) => ancestor_match(self.table(), start) == if self.table().contains_key(
                            c@,
                        ) {
                            Some(self.table()[c@])
                        } else {
                            ancestor_match(self.table(), c@)
                        },
                    },
                decreases match current {
                    Some(c) => c@.len() + 1,
                    None => 0,
                },
            {
                let c = current.unwrap();
                if let Some(route) = self.get(c.as_str()) {
                    return Some(MatchResult { route, exact: false });
                }
                proof {
                    lemma_parent_shorter(c@);
                }
                current = c.parent();
            }
        }
        None
    }

    /// Remove every route whose owning process is dead: routes that are not
    /// aliases, have a nonzero PID, and whose PID is in `dead_pids`.
    /// Returns the hostnames that were removed.
    pub fn prune_dead(&mut self, dead_pids: &Vec<u32>) -> (removed: Vec<String>)
        ensures
            forall|k: Seq<char>| #[trigger]
                final(self).table().contains_key(k) == (old(self).table().contains_key(k)
                    && !dies(old(self).table()[k], dead_pids@)),
            forall|k: Seq<char>| #[trigger]
                final(self).table().contains_key(k) ==> final(self).table()[k] == old(
                    self,
                ).table()[k],
            forall|k: Seq<char>|
                (old(self).table().contains_key(k) && dies(old(self).table()[k], dead_pids@))
                    == #[trigger] strings_view(removed@).contains(k),
            final(self).wildcard_on() == old(self).wildcard_on(),
            final(self).tld_view() == old(self).tld_view(),
    {
        proof {
            use_type_invariant(&*self);
        }
        let ghost t0 = self.table();
        let pairs = self.entries();
        let mut m = map_new();
        std::mem::swap(&mut m, &mut self.map);
        let mut removed: Vec<String> = Vec::new();
        let mut i: usize = 0;
        while i < pairs.len()
            invariant
                i <= pairs@.len(),
                route_map(m).dom().finite(),
                forall|k: Seq<char>| #[trigger]
                    route_map(m).contains_key(k) == (t0.contains_key(k) && !strings_view(
                        removed@,
                    ).contains(k)),
                forall|k: Seq<char>| #[trigger]
                    route_map(m).contains_key(k) ==> route_map(m)[k] == t0[k],
                forall|k: Seq<char>| #[trigger]
                    strings_view(removed@).contains(k) ==> t0.contains_key(k) && dies(t0[k], dead_pids@),
                forall|j: int|
                    0 <= j < i && dies(#[trigger] pairs@[j].1@, dead_pids@) ==> strings_view(
                        removed@,
                    ).contains(pairs@[j].0@),
                forall|j: int|
                    0 <= j < pairs@.len() ==> t0.contains_key(#[trigger] pairs@[j].0@) && t0[pairs@[j].0@]
                        == pairs@[j].1@,
            decreases pairs.len() - i,
        {
            let r = &pairs[i].1;
            let d = !r.alias && r.pid != 0 && contains_u32(dead_pids, r.pid);
            if d {
                let key = pairs[i].0.clone();
                let ghost k0 = key@;
                let ghost old_removed = strings_view(removed@);
                let _ = map_remove(&mut m, key.as_str());
                removed.push(key);
                assert(strings_view(removed@) =~= old_removed.push(k0));
                assert forall|k: Seq<char>| old_removed.contains(k) implies #[trigger] strings_view(
                    removed@,
                ).contains(k) by {
                    let j = choose|j: int| 0 <= j < old_removed.len() && old_removed[j] == k;
                    assert(strings_view(removed@)[j] == k);
                }
                assert forall|k: Seq<char>| #[trigger] strings_view(removed@).contains(k) implies (
                old_removed.contains(k) || k == k0) by {
                    let j = choose|j: int| 0 <= j < strings_view(removed@).len() && strings_view(
                        removed@,
                    )[j] == k;
                    if j < old_removed.len() {
                        assert(old_removed[j] == k);
                    }
                }
                assert(strings_view(removed@)[old_removed.len() as int] == k0);
            }
            i += 1;
        }
        proof {
            assert forall|k: Seq<char>| #[trigger] t0.contains_key(k) && dies(t0[k], dead_pids@) implies strings_view(
                removed@,
            ).contains(k) by {
                let j = choose|j: int| 0 <= j < pairs@.len() && pairs@[j].0@ == k;
                assert(t0[pairs@[j].0@] == pairs@[j].1@);
            }
            assert forall|k: Seq<char>| #[trigger] route_map(m).contains_key(k) implies route_map(m)[k].hostname
                == k by {
                assert(route_map(m)[k] == t0[k]);
            }
        }
        self.map = m;
        removed
    }
}

/// Whether pruning with `dead` removes the route `r`.
pub open spec fn dies(r: RouteView, dead: Seq<u32>) -> bool {
    !r.alias && r.pid != 0 && dead.contains(r.pid)
}

/// Whether `v` holds `x`.
fn contains_u32(v: &Vec<u32>, x: u32) -> (r: bool)
    ensures
        r == v@.contains(x),
{
    let mut i: usize = 0;
    while i < v.len()
        invariant
            i <= v.len(),
            forall|j: int| 0 <= j < i ==> v@[j] != x,
        decreases v.len() - i,
    {
        if v[i] == x {
            return true;
        }
        i += 1;
    }
    false
}

/// Inserting routes with distinct hostnames into an empty table gives
/// their table.
pub proof fn lemma_inserts_of_distinct(rs: Seq<Route>)
    requires
        distinct_hosts(rs),
    ensures
        table_after_inserts(Map::empty(), rs) == table_of(rs),
    decreases rs.len(),
{
    if rs.len() == 0 {
        assert(table_of(rs) =~= Map::<Seq<char>, RouteView>::empty());
    } else {
        let s = rs.drop_last();
        let r = rs.last();
        assert(distinct_hosts(s)) by {
            assert forall|i: int, j: int|
                0 <= i < s.len() && 0 <= j < s.len() && i != j implies #[trigger] s[i].hostname@
                != #[trigger] s[j].hostname@ by {
                assert(s[i] == rs[i] && s[j] == rs[j]);
            }
        }
        lemma_inserts_of_distinct(s);
        assert(!has_host(s, r.hostname@)) by {
            if has_host(s, r.hostname@) {
                let i = choose|i: int| 0 <= i < s.len() && s[i].hostname@ == r.hostname@;
                assert(rs[i] == s[i]);
                assert(rs[rs.len() - 1] == r);
            }
        }
        lemma_table_push(s, r);
        assert(s.push(r) == rs);
    }
}

/// The table reached by inserting `rs` in order into `t`.
pub open spec fn table_after_inserts(t: Map<Seq<char>, RouteView>, rs: Seq<Route>) -> Map<
    Seq<char>,
    RouteView,
>
    decreases rs.len(),
{
    if rs.len() == 0 {
        t
    } else {
        table_after_inserts(t, rs.drop_last()).insert(rs.last().hostname@, rs.last()@)
    }
}

/// Two lists with the same route values at each position have the same
/// table.
pub proof fn lemma_same_views_same_table(a: Seq<Route>, b: Seq<Route>)
    requires
        a.len() == b.len(),
        forall|j: int| 0 <= j < a.len() ==> (#[trigger] a[j])@ == b[j]@,
        distinct_hosts(b),
    ensures
        table_of(a) == table_of(b),
{
    assert forall|a1: int, b1: int|
        0 <= a1 < a.len() && 0 <= b1 < a.len() && a1 != b1 implies #[trigger] a[a1].hostname@
        != #[trigger] a[b1].hostname@ by {
        assert(a[a1]@ == b[a1]@);
        assert(a[b1]@ == b[b1]@);
    }
    assert(table_of(a) =~= table_of(b)) by {
        assert forall|k: Seq<char>| #[trigger] has_host(a, k) == has_host(b, k) by {
            if has_host(a, k) {
                let j = choose|j: int| 0 <= j < a.len() && a[j].hostname@ == k;
                assert(a[j]@ == b[j]@);
            }
            if has_host(b, k) {
                let j = choose|j: int| 0 <= j < b.len() && b[j].hostname@ == k;
                assert(a[j]@ == b[j]@);
            }
        }
        assert forall|k: Seq<char>| #[trigger] table_of(a).contains_key(k) implies table_of(a)[k]
            == table_of(b)[k] by {
            let j = choose|j: int| 0 <= j < a.len() && a[j].hostname@ == k;
            lemma_table_at(a, j);
            assert(a[j]@ == b[j]@);
            lemma_table_at(b, j);
        }
    }
}

} // verus!
