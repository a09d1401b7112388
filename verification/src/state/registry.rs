//! The route registry: the routes the proxy serves, keyed by hostname.
//!
//! The registry holds the table in memory, in a [`Router`] whose routes
//! live in a concurrent map; every change goes through `&mut self`, so a
//! reload replaces the table in place rather than swapping a shared
//! pointer. Saving it to and loading it from `routes.json` is the caller's
//! business, after each change that [`Registry::insert`] or
//! [`Registry::remove`] reports.

use vstd::prelude::*;
use crate::common::error::Error;
use crate::platform::paths::{Paths, path_join};
use crate::routing::match_::{
    Route, RouteView, Router, distinct_hosts, lemma_inserts_of_distinct, table_after_inserts,
    table_of,
};
use crate::text::{IntoText, owned};

verus! {

/// The schema version of the on-disk registry.
pub const SCHEMA_VERSION: u32 = 1;

/// On-disk format for the route registry.
#[derive(Debug)]
pub struct RegistryFile {
    /// Schema version of this file.
    pub version: u32,
    /// The list of routes.
    pub routes: Vec<Route>,
}

impl RegistryFile {
    /// Construct a new empty registry file.
    pub fn new() -> (f: Self)
        ensures
            f.version == SCHEMA_VERSION,
            f.routes@.len() == 0,
    {
        RegistryFile { version: SCHEMA_VERSION, routes: Vec::new() }
    }

    /// Construct a registry file from a router snapshot.
    pub fn from_router(router: &Router) -> (f: Self)
        ensures
            f.version == SCHEMA_VERSION,
            distinct_hosts(f.routes@),
            table_of(f.routes@) == router.table(),
            f.routes@.len() == router.table().len(),
    {
        RegistryFile { version: SCHEMA_VERSION, routes: router.list() }
    }
}

/// File-backed route registry.
#[derive(Debug)]
pub struct Registry {
    paths: Paths,
    file: String,
    router: Router,
    persist_enabled: bool,
}

impl Registry {
    /// Each registered hostname mapped to its route.
    pub closed spec fn table(&self) -> Map<Seq<char>, RouteView> {
        self.router.table()
    }

    /// Whether changes are to be written to disk.
    pub closed spec fn persists(&self) -> bool {
        self.persist_enabled
    }

    /// Where the registry is stored.
    pub closed spec fn file_view(&self) -> Seq<char> {
        self.file@
    }

    /// The state directory the registry belongs to.
    pub closed spec fn root_view(&self) -> Seq<char> {
        self.paths.root_view()
    }

    /// A registry under `paths` holding the routes of `data` (a later route
    /// replaces an earlier one with the same hostname), saved to the routes
    /// file on each change.
    pub fn from_file(paths: Paths, data: RegistryFile) -> (r: Self)
        ensures
            r.table() == table_after_inserts(Map::empty(), data.routes@),
            r.persists(),
            r.file_view() == path_join(paths.root_view(), "routes.json"@),
            r.root_view() == paths.root_view(),
    {
        let file = paths.routes_file();
        Registry { paths, file, router: Router::with_routes(data.routes), persist_enabled: true }
    }

    /// An in-memory registry under `temp_dir` that never touches disk.
    pub fn in_memory(temp_dir: &str) -> (r: Self)
        ensures
            r.table() == Map::<Seq<char>, RouteView>::empty(),
            !r.persists(),
            r.file_view() == path_join(temp_dir@, "routes.json"@),
            r.root_view() == temp_dir@,
    {
        let paths = Paths::new(temp_dir);
        let file = paths.routes_file();
        Registry { paths, file, router: Router::new(), persist_enabled: false }
    }

    /// A router holding the registered routes.
    pub fn router(&self) -> (r: Router)
        ensures
            r.table() == self.table(),
            !r.wildcard_on(),
            r.tld_view() == "localhost"@,
    {
        let routes = self.router.list();
        let ghost rs = routes@;
        let r = Router::with_routes(routes);
        proof {
            crate::routing::match_::lemma_inserts_of_distinct(rs);
        }
        r
    }

    /// Get a route by exact hostname.
    pub fn get(&self, hostname: &str) -> (r: Option<Route>)
        ensures
            r is Some <==> self.table().contains_key(hostname@),
            r matches Some(x) ==> x@ == self.table()[hostname@],
    {
        self.router.get(hostname)
    }

    /// Insert a route. If a route with the same hostname exists and `force`
    /// is false, nothing changes and the error is [`Error::RouteExists`]
    /// with that hostname; otherwise the route is set.
    pub fn insert(&mut self, route: Route, force: bool) -> (r: Result<(), Error>)
        ensures
            !force && old(self).table().contains_key(route.hostname@) ==> (r matches Err(
                Error::RouteExists(h),
            ) && h@ == route.hostname@ && final(self).table() == old(self).table()),
            force || !old(self).table().contains_key(route.hostname@) ==> r is Ok
                && final(self).table() == old(self).table().insert(route.hostname@, route@),
            final(self).persists() == old(self).persists(),
            final(self).file_view() == old(self).file_view(),
            final(self).root_view() == old(self).root_view(),
    {
        if !force && self.router.contains(route.hostname.as_str()) {
            return Err(Error::RouteExists(route.hostname));
        }
        self.router.insert(route);
        Ok(())
    }

    /// Remove a route by hostname, returning it.
    pub fn remove(&mut self, hostname: &str) -> (r: Option<Route>)
        ensures
            final(self).table() == old(self).table().remove(hostname@),
            r is Some <==> old(self).table().contains_key(hostname@),
            r matches Some(x) ==> x@ == old(self).table()[hostname@],
            final(self).persists() == old(self).persists(),
            final(self).file_view() == old(self).file_view(),
            final(self).root_view() == old(self).root_view(),
    {
        self.router.remove(hostname)
    }

    /// Snapshot of all routes.
    pub fn list(&self) -> (r: Vec<Route>)
        ensures
            table_of(r@) == self.table(),
            r@.len() == self.table().len(),
    {
        self.router.list()
    }

    /// Number of registered routes.
    pub fn len(&self) -> (n: usize)
        ensures
            n == self.table().len(),
    {
        self.router.len()
    }

    /// Returns true if no routes are registered.
    pub fn is_empty(&self) -> (r: bool)
        ensures
            r == (self.table().len() == 0),
    {
        self.router.is_empty()
    }

    /// Clear all routes.
    pub fn clear(&mut self)
        ensures
            final(self).table() == Map::<Seq<char>, RouteView>::empty(),
            final(self).persists() == old(self).persists(),
            final(self).file_view() == old(self).file_view(),
            final(self).root_view() == old(self).root_view(),
    {
        self.router = Router::new();
    }

    /// Replace the routes with those read back from disk: none when the
    /// file is gone.
    pub fn reload_from(&mut self, data: Option<RegistryFile>)
        ensures
            match data {
                Some(d) => final(self).table() == table_after_inserts(Map::empty(), d.routes@),
                None => final(self).table() == Map::<Seq<char>, RouteView>::empty(),
            },
            final(self).persists() == old(self).persists(),
            final(self).file_view() == old(self).file_view(),
            final(self).root_view() == old(self).root_view(),
    {
        match data {
            Some(d) => {
                self.router = Router::with_routes(d.routes);
            },
            None => {
                self.router = Router::new();
            },
        }
    }

    /// Take a serializable snapshot.
    pub fn snapshot(&self) -> (f: RegistryFile)
        ensures
            f.version == SCHEMA_VERSION,
            distinct_hosts(f.routes@),
            table_of(f.routes@) == self.table(),
            f.routes@.len() == self.table().len(),
    {
        RegistryFile::from_router(&self.router)
    }

    /// Whether changes are to be written to disk.
    pub fn persist_enabled(&self) -> (r: bool)
        ensures
            r == self.persists(),
    {
        self.persist_enabled
    }

    /// The on-disk path of the registry.
    pub fn file_path(&self) -> (r: &str)
        ensures
            r@ == self.file_view(),
    {
        self.file.as_str()
    }

    /// The state root paths.
    pub fn paths(&self) -> (r: &Paths)
        ensures
            r.root_view() == self.root_view(),
    {
        &self.paths
    }

    /// Insert a route, replacing any existing one with the same hostname.
    pub fn upsert(&mut self, route: Route) -> (r: Result<(), Error>)
        ensures
            r is Ok,
            final(self).table() == old(self).table().insert(route.hostname@, route@),
            final(self).persists() == old(self).persists(),
            final(self).file_view() == old(self).file_view(),
            final(self).root_view() == old(self).root_view(),
    {
        self.insert(route, true)
    }
}

/// Saving and reading back restores the routes: a snapshot holds each
/// hostname once, so the registry rebuilt from it (by `from_file` or
/// `reload_from`) has exactly the table the snapshot was taken from.
pub proof fn lemma_snapshot_reload(table: Map<Seq<char>, RouteView>, snapshot: Seq<Route>)
    requires
        distinct_hosts(snapshot),
        table_of(snapshot) == table,
    ensures
        table_after_inserts(Map::empty(), snapshot) == table,
{
    lemma_inserts_of_distinct(snapshot);
}

/// A refused insert leaves the table as it was, and an accepted one is what
/// a later lookup finds: after `insert(route, force)` the table holds the
/// old route when the hostname was taken and `force` was off, else the new
/// one.
pub proof fn lemma_insert_then_get(t: Map<Seq<char>, RouteView>, route: RouteView, force: bool)
    ensures
        ({
            let after = if !force && t.contains_key(route.hostname) {
                t
            } else {
                t.insert(route.hostname, route)
            };
            &&& after.contains_key(route.hostname)
            &&& after[route.hostname] == if !force && t.contains_key(route.hostname) {
                t[route.hostname]
            } else {
                route
            }
        }),
{
}

} // verus!
