//! Which backend a client is sent to, by the database that it asks for.
use crate::config::{BackendConfig, DatabaseConfig};
use crate::names::NameMap;
use vstd::prelude::*;

verus! {

/// The databases by name. Of two with the same name the later counts.
pub open spec fn table(databases: Seq<DatabaseConfig>) -> Map<Seq<char>, DatabaseConfig>
    decreases databases.len(),
{
    if databases.len() == 0 {
        Map::empty()
    } else {
        table(databases.drop_last()).insert(databases.last().name@, databases.last())
    }
}

/// Sends clients to backends.
#[derive(Debug)]
pub struct DatabaseRouter {
    routes: NameMap<DatabaseConfig>,
    default: DatabaseConfig,
}

impl DatabaseRouter {
    /// The databases by name.
    pub closed spec fn view(&self) -> Map<Seq<char>, DatabaseConfig> {
        self.routes@
    }

    /// Where a client goes whose database has no entry.
    pub closed spec fn fallback(&self) -> DatabaseConfig {
        self.default
    }

    /// Each name is held once.
    pub closed spec fn wf(&self) -> bool {
        self.routes.wf()
    }

    /// Where a client goes that asks for the database `name`.
    pub open spec fn target(&self, name: Seq<char>) -> DatabaseConfig {
        if self@.dom().contains(name) {
            self@[name]
        } else {
            self.fallback()
        }
    }

    /// A router for `databases`, with the default backend for the others.
    pub fn new(
        databases: &[DatabaseConfig],
        default_backend: &BackendConfig,
        default_pool_size: usize,
    ) -> (r: Self)
        ensures
            r.wf(),
            r@ == table(databases@),
            r.fallback() == (DatabaseConfig {
                name: r.fallback().name,
                host: default_backend.host,
                port: default_backend.port,
                database: default_backend.database,
                user: default_backend.user,
                password: default_backend.password,
                pool_size: Some(default_pool_size),
            }),
            r.fallback().name@ == "*"@,
    {
        let mut routes: NameMap<DatabaseConfig> = NameMap::new();
        let mut i: usize = 0;
        assert(databases@.take(0) =~= Seq::empty());
        while i < databases.len()
            invariant
                routes.wf(),
                i <= databases@.len(),
                routes@ == table(databases@.take(i as int)),
            decreases databases.len() - i,
        {
            routes.insert(databases[i].name.clone(), databases[i].copy());
            i += 1;
            proof {
                let t = databases@.take(i as int);
                assert(t.drop_last() =~= databases@.take(i - 1));
                assert(t.last() == databases@[i - 1]);
            }
        }
        assert(databases@.take(i as int) =~= databases@);
        let default = DatabaseConfig {
            name: "*".to_owned(),
            host: default_backend.host.clone(),
            port: default_backend.port,
            database: default_backend.database.clone(),
            user: default_backend.user.clone(),
            password: default_backend.password.clone(),
            pool_size: Some(default_pool_size),
        };
        DatabaseRouter { routes, default }
    }

    /// Where a client goes that asks for `database_name`.
    pub fn route(&self, database_name: &str) -> (r: &DatabaseConfig)
        requires
            self.wf(),
        ensures
            *r == self.target(database_name@),
    {
        match self.routes.get(database_name) {
            Some(config) => config,
            None => &self.default,
        }
    }

    /// Whether `database_name` has an entry.
    pub fn has_route(&self, database_name: &str) -> (r: bool)
        requires
            self.wf(),
        ensures
            r == self@.dom().contains(database_name@),
    {
        self.routes.contains(database_name)
    }

    /// The names that have an entry, each once.
    pub fn database_names(&self) -> (r: Vec<&str>)
        requires
            self.wf(),
        ensures
            r@.len() == self@.dom().len(),
            forall|i: int| 0 <= i < r@.len() ==> self@.dom().contains((#[trigger] r@[i])@),
            forall|i: int, j: int|
                0 <= i < j < r@.len() ==> (#[trigger] r@[i])@ != (#[trigger] r@[j])@,
    {
        let mut out: Vec<&str> = Vec::new();
        let mut i: usize = 0;
        while i < self.routes.len()
            invariant
                self.wf(),
                i <= self.routes.names().len(),
                out@.len() == i,
                forall|k: int| 0 <= k < i ==> (#[trigger] out@[k])@ == self.routes.names()[k],
            decreases self.routes.names().len() - i,
        {
            out.push(self.routes.name_at(i).as_str());
            i += 1;
        }
        proof {
            self.routes.lemma_len();
            assert forall|k: int| 0 <= k < out@.len() implies self@.dom().contains(
                (#[trigger] out@[k])@,
            ) by {
                self.routes.lemma_at(k);
            }
        }
        out
    }

    /// The number of entries.
    pub fn route_count(&self) -> (r: usize)
        requires
            self.wf(),
        ensures
            r == self@.dom().len(),
    {
        self.routes.len()
    }

    /// Where a client goes whose database has no entry.
    pub fn default_config(&self) -> (r: &DatabaseConfig)
        ensures
            *r == self.fallback(),
    {
        &self.default
    }
}

/// A database that is configured is reached under its name; where several
/// have the same name, the last of them.
pub proof fn law_last_entry_counts(databases: Seq<DatabaseConfig>, i: int)
    requires
        0 <= i < databases.len(),
        forall|j: int|
            i < j < databases.len() ==> (#[trigger] databases[j]).name@ != databases[i].name@,
    ensures
        table(databases).dom().contains(databases[i].name@),
        table(databases)[databases[i].name@] == databases[i],
    decreases databases.len(),
{
    if i < databases.len() - 1 {
        let rest = databases.drop_last();
        assert forall|j: int| i < j < rest.len() implies (#[trigger] rest[j]).name@
            != rest[i].name@ by {
            assert(rest[j] == databases[j]);
        }
        law_last_entry_counts(rest, i);
        assert(databases.last() == databases[databases.len() - 1]);
    }
}

/// A name that no database has leads nowhere but to the default.
pub proof fn law_unknown_name_has_no_entry(databases: Seq<DatabaseConfig>, name: Seq<char>)
    requires
        forall|j: int| 0 <= j < databases.len() ==> (#[trigger] databases[j]).name@ != name,
    ensures
        !table(databases).dom().contains(name),
    decreases databases.len(),
{
    if databases.len() > 0 {
        let rest = databases.drop_last();
        assert forall|j: int| 0 <= j < rest.len() implies (#[trigger] rest[j]).name@ != name by {
            assert(rest[j] == databases[j]);
        }
        law_unknown_name_has_no_entry(rest, name);
        assert(databases.last() == databases[databases.len() - 1]);
    }
}

/// A client that asks for a database with an entry is sent to that entry, and
/// any other to the default.
pub proof fn law_clients_are_sent_by_name(
    router: DatabaseRouter,
    databases: Seq<DatabaseConfig>,
    name: Seq<char>,
    i: int,
)
    requires
        router@ == table(databases),
    ensures
        0 <= i < databases.len() && databases[i].name@ == name && (forall|j: int|
            i < j < databases.len() ==> (#[trigger] databases[j]).name@ != name) ==> router.target(
            name,
        ) == databases[i],
        (forall|j: int| 0 <= j < databases.len() ==> (#[trigger] databases[j]).name@ != name)
            ==> router.target(name) == router.fallback(),
{
    if 0 <= i < databases.len() && databases[i].name@ == name && (forall|j: int|
        i < j < databases.len() ==> (#[trigger] databases[j]).name@ != name) {
        law_last_entry_counts(databases, i);
    }
    if forall|j: int| 0 <= j < databases.len() ==> (#[trigger] databases[j]).name@ != name {
        law_unknown_name_has_no_entry(databases, name);
    }
}

/// A client that asks for a database that no entry has is sent to the default
/// backend, under the name `*`; one whose database has a single entry is sent to
/// that.
pub proof fn law_route_follows_the_entries(
    databases: &[DatabaseConfig],
    default_backend: &BackendConfig,
    size: usize,
    router: DatabaseRouter,
    name: &str,
    r: &DatabaseConfig,
    i: int,
)
    requires
        call_ensures(DatabaseRouter::new, (databases, default_backend, size), router),
        call_ensures(DatabaseRouter::route, (&router, name), r),
    ensures
        (forall|j: int| 0 <= j < databases@.len() ==> (#[trigger] databases@[j]).name@ != name@)
            ==> r.host == default_backend.host && r.port == default_backend.port && r.database
            == default_backend.database && r.user == default_backend.user && r.password
            == default_backend.password && r.pool_size == Some(size) && r.name@ == "*"@,
        0 <= i < databases@.len() && databases@[i].name@ == name@ && (forall|j: int|
            i < j < databases@.len() ==> (#[trigger] databases@[j]).name@ != name@) ==> *r
            == databases@[i],
{
    law_clients_are_sent_by_name(router, databases@, name@, i);
}

} // verus!
