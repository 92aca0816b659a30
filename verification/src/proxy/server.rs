//! What the server decides: which pools there are, which clients are let in
//! and where they are sent.
use crate::config::{AuthConfig, AuthType, DatabaseConfig, PerformanceConfig, PoolingStrategy};
use crate::names::NameMap;
use crate::protocol::wire;
use crate::proxy::admin_handles::{ClientEntry, ClientState};
use crate::proxy::pool_manager::PoolManagerConfig;
use crate::resilience::circuit_breaker::CircuitBreakerConfig;
use crate::routing::DatabaseRouter;
use crate::text;
use crate::text::eq_ignore_ascii_case;
use std::time::Instant;
use vstd::prelude::*;

verus! {

/// The name of the pool for the databases that have none of their own.
pub const DEFAULT_POOL: &'static str = "*";

/// The database that stands for the admin console, in any letter case.
pub const ADMIN_DATABASE: &'static str = "pgbouncer";

/// How the pool of a database is made.
#[derive(Debug)]
pub struct PoolPlan {
    pub database: DatabaseConfig,
    /// How many connections it has.
    pub pool_size: usize,
    /// How many connections it keeps without use.
    pub min_idle: usize,
    /// How its connections are handed out.
    pub manager: PoolManagerConfig,
}

/// Whether the time that a client waits can be counted in milliseconds.
pub open spec fn timeout_fits(perf: PerformanceConfig) -> bool {
    perf.pool_timeout_secs * 1000 <= u64::MAX
}

/// How the pool of a database is made.
pub open spec fn pool_plan(database: DatabaseConfig, perf: PerformanceConfig) -> PoolPlan {
    let pool_size = match database.pool_size {
        Some(n) => n,
        None => perf.pool_size,
    };
    PoolPlan {
        database,
        pool_size,
        min_idle: if perf.pool_min_idle < pool_size {
            perf.pool_min_idle
        } else {
            pool_size
        },
        manager: PoolManagerConfig {
            lifo: perf.pool_lifo,
            queue_depth: perf.pool_queue_depth,
            idle_unpin_secs: perf.pool_idle_unpin_secs,
            wait_timeout_ms: (perf.pool_timeout_secs * 1000) as u64,
        },
    }
}

/// The pools by name: one for each database, and one for the others. Of two
/// databases with the same name the later counts.
pub open spec fn pool_table(
    default: DatabaseConfig,
    databases: Seq<DatabaseConfig>,
    perf: PerformanceConfig,
) -> Map<Seq<char>, PoolPlan>
    decreases databases.len(),
{
    if databases.len() == 0 {
        Map::empty().insert(DEFAULT_POOL@, pool_plan(default, perf))
    } else {
        pool_table(default, databases.drop_last(), perf).insert(
            databases.last().name@,
            pool_plan(databases.last(), perf),
        )
    }
}

/// How the pool of a database is made.
pub fn plan_pool(database: &DatabaseConfig, perf: &PerformanceConfig) -> (r: PoolPlan)
    requires
        timeout_fits(*perf),
    ensures
        r == pool_plan(*database, *perf),
{
    let pool_size: usize = match database.pool_size {
        Some(n) => n,
        None => perf.pool_size,
    };
    PoolPlan {
        database: database.copy(),
        pool_size,
        min_idle: if perf.pool_min_idle < pool_size {
            perf.pool_min_idle
        } else {
            pool_size
        },
        manager: PoolManagerConfig {
            lifo: perf.pool_lifo,
            queue_depth: perf.pool_queue_depth,
            idle_unpin_secs: perf.pool_idle_unpin_secs,
            wait_timeout_ms: perf.pool_timeout_secs * 1000,
        },
    }
}

/// Whether the pool of a database has a circuit breaker of its own, and if so
/// whether the breaker follows the health monitor.
pub fn plan_breaker(config: &CircuitBreakerConfig) -> (r: Option<bool>)
    ensures
        r == if config.enabled {
            Some(config.use_health_monitor)
        } else {
            None
        },
{
    if config.enabled {
        Some(config.use_health_monitor)
    } else {
        None
    }
}

/// How the pools are made. Where pooling is disabled there are none.
pub fn plan_pools(
    router: &DatabaseRouter,
    databases: &[DatabaseConfig],
    perf: &PerformanceConfig,
) -> (r: NameMap<PoolPlan>)
    requires
        timeout_fits(*perf),
    ensures
        r.wf(),
        r@ == (if perf.connection_pooling == PoolingStrategy::Disabled {
            Map::<Seq<char>, PoolPlan>::empty()
        } else {
            pool_table(router.fallback(), databases@, *perf)
        }),
{
    let mut plans: NameMap<PoolPlan> = NameMap::new();
    if perf.connection_pooling == PoolingStrategy::Disabled {
        return plans;
    }
    plans.insert(DEFAULT_POOL.to_owned(), plan_pool(router.default_config(), perf));
    let mut i: usize = 0;
    assert(databases@.take(0) =~= Seq::empty());
    while i < databases.len()
        invariant
            timeout_fits(*perf),
            plans.wf(),
            i <= databases@.len(),
            plans@ == pool_table(router.fallback(), databases@.take(i as int), *perf),
        decreases databases.len() - i,
    {
        plans.insert(databases[i].name.clone(), plan_pool(&databases[i], perf));
        i += 1;
        proof {
            let t = databases@.take(i as int);
            assert(t.drop_last() =~= databases@.take(i - 1));
            assert(t.last() == databases@[i - 1]);
        }
    }
    assert(databases@.take(i as int) =~= databases@);
    plans
}

/// How clients are authenticated.
#[derive(Debug)]
pub enum AuthPlan {
    /// By the users in a file.
    LoadFile(String),
    /// Not at all, though a way was asked for: there is no file.
    FallBackToTrust,
    /// Not at all.
    Trust,
}

/// How clients are authenticated.
pub fn plan_auth(config: &AuthConfig) -> (r: AuthPlan)
    ensures
        r == match config.auth_file {
            Some(f) => AuthPlan::LoadFile(f),
            None => if config.auth_type == AuthType::Trust {
                AuthPlan::Trust
            } else {
                AuthPlan::FallBackToTrust
            },
        },
{
    match &config.auth_file {
        Some(f) => AuthPlan::LoadFile(f.clone()),
        None => {
            if config.auth_type == AuthType::Trust {
                AuthPlan::Trust
            } else {
                AuthPlan::FallBackToTrust
            }
        },
    }
}

/// Every how many seconds sticky connections without use are looked for.
pub open spec fn cleanup_interval(idle_unpin_secs: u64, has_pools: bool) -> Option<u64> {
    if idle_unpin_secs > 0 && has_pools {
        Some(
            if idle_unpin_secs < 2 {
                1u64
            } else {
                (idle_unpin_secs / 2) as u64
            },
        )
    } else {
        None
    }
}

/// Every how many seconds sticky connections without use are looked for. They
/// are not where they are never given up, or where there is no pool.
pub fn cleanup_interval_secs(idle_unpin_secs: u64, has_pools: bool) -> (r: Option<u64>)
    ensures
        r == (if idle_unpin_secs > 0 && has_pools {
            Some(
                if idle_unpin_secs < 2 {
                    1u64
                } else {
                    (idle_unpin_secs / 2) as u64
                },
            )
        } else {
            None
        }),
        r == cleanup_interval(idle_unpin_secs, has_pools),
{
    if idle_unpin_secs > 0 && has_pools {
        Some(
            if idle_unpin_secs < 2 {
                1
            } else {
                idle_unpin_secs / 2
            },
        )
    } else {
        None
    }
}

/// The sum of numbers.
pub open spec fn sum(numbers: Seq<usize>) -> nat
    decreases numbers.len(),
{
    if numbers.len() == 0 {
        0
    } else {
        sum(numbers.drop_last()) + numbers.last() as nat
    }
}

/// The first numbers of a sequence sum up to no more than all of them.
proof fn lemma_sum_of_prefix(numbers: Seq<usize>, n: int)
    requires
        0 <= n <= numbers.len(),
    ensures
        sum(numbers.take(n)) <= sum(numbers),
    decreases numbers.len(),
{
    if n == numbers.len() {
        assert(numbers.take(n) =~= numbers);
    } else {
        lemma_sum_of_prefix(numbers.drop_last(), n);
        assert(numbers.drop_last().take(n) =~= numbers.take(n));
    }
}

/// What the server holds, over sequences and maps.
#[verifier::ext_equal]
#[verifier::reject_recursive_types(P)]
pub struct ServerState<P> {
    /// The pools by name.
    pub pools: Map<Seq<char>, P>,
    /// How many clients are connected.
    pub active: nat,
    /// How many clients may be connected.
    pub limit: nat,
    /// How many clients have been let in.
    pub accepted: nat,
}

impl<P> ServerState<P> {
    /// The pool for clients of the database `name`.
    pub open spec fn pool_for(self, name: Seq<char>) -> Option<P> {
        if self.pools.dom().contains(name) {
            Some(self.pools[name])
        } else {
            self.default_pool()
        }
    }

    /// The pool for clients of the databases that have none of their own.
    pub open spec fn default_pool(self) -> Option<P> {
        if self.pools.dom().contains(DEFAULT_POOL@) {
            Some(self.pools[DEFAULT_POOL@])
        } else {
            None
        }
    }

    /// The state after another client has come.
    pub open spec fn after_accept(self) -> Self {
        if self.active < self.limit {
            ServerState { active: self.active + 1, accepted: self.accepted + 1, ..self }
        } else {
            self
        }
    }

    /// The state after a client has left.
    pub open spec fn after_close(self) -> Self {
        ServerState { active: (self.active - 1) as nat, ..self }
    }
}

/// The pools of the server and the clients that it lets in.
#[derive(Debug)]
pub struct ProxyServer<P> {
    pool_managers: NameMap<P>,
    router: DatabaseRouter,
    active_connections: usize,
    max_connections: usize,
    connection_count: u64,
}

/// What a client is told when there are too many.
pub open spec fn over_limit_error() -> Seq<u8> {
    wire::error_response("FATAL"@, "53300"@, "sorry, too many clients already"@, None)
}

impl<P> ProxyServer<P> {
    /// What the server holds.
    pub closed spec fn view(&self) -> ServerState<P> {
        ServerState {
            pools: self.pool_managers@,
            active: self.active_connections as nat,
            limit: self.max_connections as nat,
            accepted: self.connection_count as nat,
        }
    }

    /// The router.
    pub closed spec fn routes(&self) -> DatabaseRouter {
        self.router
    }

    /// Pools and routes are held under one name each.
    pub closed spec fn tables_wf(&self) -> bool {
        &&& self.pool_managers.wf()
        &&& self.router.wf()
    }

    /// No more clients are connected than may be.
    pub open spec fn wf(&self) -> bool {
        &&& self.tables_wf()
        &&& self@.active <= self@.limit
    }

    /// A server without clients.
    pub fn new(
        pool_managers: NameMap<P>,
        router: DatabaseRouter,
        max_connections: usize,
    ) -> (r: Self)
        requires
            pool_managers.wf(),
            router.wf(),
        ensures
            r.wf(),
            r@ == (ServerState {
                pools: pool_managers@,
                active: 0,
                limit: max_connections as nat,
                accepted: 0,
            }),
            r.routes() == router,
    {
        ProxyServer {
            pool_managers,
            router,
            active_connections: 0,
            max_connections,
            connection_count: 0,
        }
    }

    /// The pool for clients of the databases that have none of their own.
    pub fn pool_manager(&self) -> (r: Option<&P>)
        requires
            self.wf(),
        ensures
            match r {
                Some(p) => self@.default_pool() == Some(*p),
                None => self@.default_pool() is None,
            },
    {
        self.pool_managers.get(DEFAULT_POOL)
    }

    /// The pool for clients of a database.
    pub fn pool_manager_for(&self, database: &str) -> (r: Option<&P>)
        requires
            self.wf(),
        ensures
            match r {
                Some(p) => self@.pool_for(database@) == Some(*p),
                None => self@.pool_for(database@) is None,
            },
    {
        match self.pool_managers.get(database) {
            Some(p) => Some(p),
            None => self.pool_managers.get(DEFAULT_POOL),
        }
    }

    /// The pool for a client that named a database, or none.
    pub fn pool_for_client(&self, identity: &ClientIdentity) -> (r: Option<&P>)
        requires
            self.wf(),
        ensures
            ({
                let pool = match identity.database {
                    Some(d) => self@.pool_for(d@),
                    None => self@.default_pool(),
                };
                match r {
                    Some(p) => pool == Some(*p),
                    None => pool is None,
                }
            }),
    {
        match &identity.database {
            Some(d) => self.pool_manager_for(d.as_str()),
            None => self.pool_manager(),
        }
    }

    /// The router.
    pub fn router(&self) -> (r: &DatabaseRouter)
        ensures
            *r == self.routes(),
    {
        &self.router
    }

    /// How many clients are connected.
    pub fn active_connection_count(&self) -> (r: usize)
        ensures
            r == self@.active,
    {
        self.active_connections
    }

    /// How many clients may be connected.
    pub fn max_connections(&self) -> (r: usize)
        ensures
            r == self@.limit,
    {
        self.max_connections
    }

    /// How many clients have been let in.
    pub fn connection_count(&self) -> (r: u64)
        ensures
            r == self@.accepted,
    {
        self.connection_count
    }

    /// A client has come. It gets the number of its connection, counted from
    /// one; where as many clients are connected as may be, it gets none.
    pub fn accept(&mut self) -> (r: Option<u64>)
        requires
            old(self).wf(),
            old(self)@.accepted < u64::MAX,
        ensures
            final(self).wf(),
            final(self)@ == old(self)@.after_accept(),
            final(self).routes() == old(self).routes(),
            match r {
                Some(id) => old(self)@.active < old(self)@.limit && id == old(self)@.accepted + 1,
                None => old(self)@.active >= old(self)@.limit,
            },
    {
        if self.active_connections >= self.max_connections {
            return None;
        }
        self.active_connections += 1;
        self.connection_count += 1;
        Some(self.connection_count)
    }

    /// A client has left.
    pub fn close(&mut self)
        requires
            old(self).wf(),
            old(self)@.active > 0,
        ensures
            final(self).wf(),
            final(self)@ == old(self)@.after_close(),
            final(self).routes() == old(self).routes(),
    {
        self.active_connections -= 1;
    }

    /// What a client is told when there are too many.
    pub fn build_over_limit_error() -> (r: Vec<u8>)
        ensures
            r@ == over_limit_error(),
    {
        wire::build_error("FATAL", "53300", "sorry, too many clients already", None)
    }

    /// Whether pools are filled with `min_idle` connections each before clients
    /// come.
    pub fn warms_up(&self, min_idle: usize) -> (r: bool)
        requires
            self.wf(),
        ensures
            r == (self@.pools != Map::<Seq<char>, P>::empty() && min_idle > 0),
    {
        !self.pool_managers.is_empty() && min_idle > 0
    }

    /// How many connections were made when the pools were filled, where
    /// `created` says how many in each.
    pub fn warmup_pools(created: &Vec<usize>) -> (r: usize)
        requires
            sum(created@) <= usize::MAX,
        ensures
            r == sum(created@),
    {
        let mut total: usize = 0;
        let mut i: usize = 0;
        assert(created@.take(0) =~= Seq::empty());
        while i < created.len()
            invariant
                i <= created@.len(),
                total == sum(created@.take(i as int)),
                sum(created@) <= usize::MAX,
            decreases created.len() - i,
        {
            proof {
                let t = created@.take(i + 1);
                assert(t.drop_last() =~= created@.take(i as int));
                assert(t.last() == created@[i as int]);
                lemma_sum_of_prefix(created@, i + 1);
            }
            total += created[i];
            i += 1;
        }
        assert(created@.take(i as int) =~= created@);
        total
    }
}

/// Who a client says it is.
#[derive(Debug)]
pub struct ClientIdentity {
    pub user: Option<String>,
    pub database: Option<String>,
    /// Whether it wants the admin console.
    pub is_admin: bool,
}

/// Whether a client that named `database` wants the admin console.
pub open spec fn wants_console(database: Option<String>) -> bool {
    database is Some && text::lower_all(database->0@) == text::lower_all(ADMIN_DATABASE@)
}

/// Who a client says it is that named `user` and `database`.
pub fn identify(user: Option<String>, database: Option<String>) -> (r: ClientIdentity)
    ensures
        r == (ClientIdentity { user, database, is_admin: wants_console(database) }),
{
    let is_admin: bool = match &database {
        Some(d) => eq_ignore_ascii_case(d.as_str(), ADMIN_DATABASE),
        None => false,
    };
    ClientIdentity { user, database, is_admin }
}

/// A copy of a text, or an empty text.
fn or_empty(t: &Option<String>) -> (r: String)
    ensures
        r@ == (match *t {
            Some(s) => s@,
            None => Seq::empty(),
        }),
{
    match t {
        Some(s) => s.clone(),
        None => String::new(),
    }
}

/// How a client is listed that came from `addr`, or over a local socket, at
/// `now`.
pub fn client_entry(
    conn_id: u64,
    addr: &Option<String>,
    identity: &ClientIdentity,
    now: Instant,
    tls: bool,
) -> (r: ClientEntry)
    ensures
        r.conn_id == conn_id,
        r.addr@ == (match *addr {
            Some(a) => a@,
            None => "unix"@,
        }),
        r.user@ == (match identity.user {
            Some(u) => u@,
            None => Seq::empty(),
        }),
        r.database@ == (match identity.database {
            Some(d) => d@,
            None => Seq::empty(),
        }),
        r.state == (if identity.is_admin {
            ClientState::Admin
        } else {
            ClientState::Active
        }),
        r.connect_time == now,
        r.last_request_time == now,
        r.tls == tls,
{
    ClientEntry {
        conn_id,
        addr: match addr {
            Some(a) => a.clone(),
            None => "unix".to_owned(),
        },
        user: or_empty(&identity.user),
        database: or_empty(&identity.database),
        state: if identity.is_admin {
            ClientState::Admin
        } else {
            ClientState::Active
        },
        connect_time: now,
        last_request_time: now,
        tls,
    }
}

/// The authenticator that is in use. It can be replaced while clients are
/// served.
#[derive(Debug)]
pub struct AuthCell<A> {
    current: Option<A>,
}

impl<A> AuthCell<A> {
    /// The authenticator in use.
    pub closed spec fn view(&self) -> Option<A> {
        self.current
    }

    /// The cell that holds `current`.
    pub fn new(current: Option<A>) -> (r: Self)
        ensures
            r@ == current,
    {
        AuthCell { current }
    }

    /// The authenticator in use.
    pub fn authenticator(&self) -> (r: Option<&A>)
        ensures
            match r {
                Some(a) => self@ == Some(*a),
                None => self@ is None,
            },
    {
        match &self.current {
            Some(a) => Some(a),
            None => None,
        }
    }

    /// Take up what was loaded, if anything was to be. Where loading failed,
    /// the authenticator stays and the error is handed on.
    pub fn apply_config_reload<E>(&mut self, loaded: Option<Result<A, E>>) -> (r: Result<(), E>)
        ensures
            match loaded {
                Some(Ok(a)) => final(self)@ == Some(a) && r is Ok,
                Some(Err(e)) => final(self)@ == old(self)@ && r == Err::<(), E>(e),
                None => final(self)@ == old(self)@ && r is Ok,
            },
    {
        match loaded {
            Some(Ok(a)) => {
                self.current = Some(a);
                Ok(())
            },
            Some(Err(e)) => Err(e),
            None => Ok(()),
        }
    }
}

/// Where pooling is not disabled, there is a pool for every database.
pub proof fn law_every_database_has_a_pool(
    default: DatabaseConfig,
    databases: Seq<DatabaseConfig>,
    perf: PerformanceConfig,
)
    ensures
        pool_table(default, databases, perf).dom().contains(DEFAULT_POOL@),
    decreases databases.len(),
{
    if databases.len() > 0 {
        law_every_database_has_a_pool(default, databases.drop_last(), perf);
    }
}

/// A database that is configured has a pool of its own under its name; where
/// several have the same name, the last of them.
pub proof fn law_configured_database_has_its_pool(
    default: DatabaseConfig,
    databases: Seq<DatabaseConfig>,
    perf: PerformanceConfig,
    i: int,
)
    requires
        0 <= i < databases.len(),
        forall|j: int|
            i < j < databases.len() ==> (#[trigger] databases[j]).name@ != databases[i].name@,
    ensures
        pool_table(default, databases, perf).dom().contains(databases[i].name@),
        pool_table(default, databases, perf)[databases[i].name@] == pool_plan(databases[i], perf),
    decreases databases.len(),
{
    if i < databases.len() - 1 {
        let rest = databases.drop_last();
        assert forall|j: int| i < j < rest.len() implies (#[trigger] rest[j]).name@
            != rest[i].name@ by {
            assert(rest[j] == databases[j]);
        }
        law_configured_database_has_its_pool(default, rest, perf, i);
        assert(databases.last() == databases[databases.len() - 1]);
    }
}

/// No pool keeps more connections without use than it has.
pub proof fn law_idle_connections_fit(database: DatabaseConfig, perf: PerformanceConfig)
    ensures
        pool_plan(database, perf).min_idle <= pool_plan(database, perf).pool_size,
        pool_plan(database, perf).min_idle <= perf.pool_min_idle,
{
}

/// A client that comes and leaves again leaves the place that it took, and its
/// coming never brings the clients above the limit.
pub proof fn law_limit_is_kept<P>(s: ServerState<P>)
    requires
        s.active <= s.limit,
    ensures
        s.after_accept().active <= s.limit,
        s.active < s.limit ==> s.after_accept().after_close().active == s.active,
        s.active == s.limit ==> s.after_accept() == s,
{
}

/// A pool has the size that its database asks for, or else the common one; it
/// keeps as many connections without use as the settings say and it has room
/// for; its clients wait as many milliseconds as the settings say seconds, and
/// what else the settings say of it is taken over.
pub proof fn law_pools_follow_the_settings(database: DatabaseConfig, perf: PerformanceConfig)
    requires
        timeout_fits(perf),
    ensures
        ({
            let p = pool_plan(database, perf);
            &&& p.database == database
            &&& database.pool_size matches Some(n) ==> p.pool_size == n
            &&& database.pool_size is None ==> p.pool_size == perf.pool_size
            &&& p.min_idle == perf.pool_min_idle || p.min_idle == p.pool_size
            &&& p.min_idle <= perf.pool_min_idle
            &&& p.min_idle <= p.pool_size
            &&& p.manager.lifo == perf.pool_lifo
            &&& p.manager.queue_depth == perf.pool_queue_depth
            &&& p.manager.idle_unpin_secs == perf.pool_idle_unpin_secs
            &&& p.manager.wait_timeout_ms == 1000 * perf.pool_timeout_secs
        }),
{
}

/// There are no pools but the default one and those of the databases that are
/// configured; the default one is made for the default backend, unless a
/// database has its name.
pub proof fn law_there_are_no_other_pools(
    default: DatabaseConfig,
    databases: Seq<DatabaseConfig>,
    perf: PerformanceConfig,
    name: Seq<char>,
)
    requires
        forall|j: int| 0 <= j < databases.len() ==> (#[trigger] databases[j]).name@ != name,
    ensures
        pool_table(default, databases, perf).dom().contains(name) <==> name == "*"@,
        name == "*"@ ==> pool_table(default, databases, perf)[name] == pool_plan(default, perf),
    decreases databases.len(),
{
    if databases.len() > 0 {
        let rest = databases.drop_last();
        assert forall|j: int| 0 <= j < rest.len() implies (#[trigger] rest[j]).name@ != name by {
            assert(rest[j] == databases[j]);
        }
        law_there_are_no_other_pools(default, rest, perf, name);
        assert(databases.last() == databases[databases.len() - 1]);
    }
}

/// A client gets the pool of its database where that has one, and the default
/// pool where it has none; a client without a pool finds no default one either.
pub proof fn law_clients_get_their_pool<P>(s: ServerState<P>, name: Seq<char>)
    ensures
        s.pools.dom().contains(name) ==> s.pool_for(name) == Some(s.pools[name]),
        !s.pools.dom().contains(name) ==> s.pool_for(name) == s.pool_for("*"@),
        s.default_pool() == s.pool_for("*"@),
        s.pool_for("*"@) is Some <==> s.pools.dom().contains("*"@),
{
}

/// A client that is let in is counted as connected and as let in; one that
/// leaves is no longer connected, but was let in. Neither changes the pools or
/// the limit.
pub proof fn law_clients_are_counted<P>(s: ServerState<P>)
    requires
        s.active <= s.limit,
    ensures
        s.active < s.limit ==> s.after_accept().active == s.active + 1 && s.after_accept().accepted
            == s.accepted + 1,
        s.active > 0 ==> s.after_close().active == s.active - 1,
        s.after_close().accepted == s.accepted,
        s.after_accept().pools == s.pools,
        s.after_accept().limit == s.limit,
        s.after_close().pools == s.pools,
        s.after_close().limit == s.limit,
{
}

/// A client wants the console exactly where it names the console's database, in
/// whatever letter case.
pub proof fn law_console_is_named(a: String, b: String)
    requires
        text::lower_all(a@) == text::lower_all(b@),
    ensures
        wants_console(Some(a)) == wants_console(Some(b)),
        wants_console(Some(a)) <==> text::lower_all(a@) == "pgbouncer"@,
        !wants_console(None),
{
    reveal_strlit("pgbouncer");
    assert(text::lower_all("pgbouncer"@) =~= "pgbouncer"@);
}

/// Connections that were made are summed up, pool by pool.
pub proof fn law_sums_add_up(a: Seq<usize>, b: Seq<usize>, n: usize)
    ensures
        sum(a + b) == sum(a) + sum(b),
        sum(seq![n]) == n,
    decreases b.len(),
{
    let one = seq![n];
    assert(one.drop_last() =~= Seq::empty());
    assert(sum(one.drop_last()) == 0);
    if b.len() > 0 {
        assert((a + b).drop_last() =~= a + b.drop_last());
        law_sums_add_up(a, b.drop_last(), n);
    } else {
        assert(a + b =~= a);
    }
}

/// Connections without use are looked for where there are pools and they are
/// given up at all: twice in the time after which they are, but no more than
/// once a second.
pub proof fn law_idle_connections_are_looked_for(idle_unpin_secs: u64, has_pools: bool)
    ensures
        cleanup_interval(idle_unpin_secs, has_pools) is Some <==> idle_unpin_secs > 0 && has_pools,
        cleanup_interval(idle_unpin_secs, has_pools) matches Some(n) ==> {
            &&& n >= 1
            &&& idle_unpin_secs > 1 ==> 2 * n <= idle_unpin_secs < 2 * n + 2
            &&& idle_unpin_secs == 1 ==> n == 1
        },
{
}

/// A file of users is always used where there is one; without it clients are not
/// authenticated, which is said where another way was asked for.
pub proof fn law_users_come_from_a_file(config: &AuthConfig, r: AuthPlan)
    requires
        call_ensures(plan_auth, (config,), r),
    ensures
        r is LoadFile <==> config.auth_file is Some,
        r matches AuthPlan::LoadFile(f) ==> config.auth_file == Some(f),
        r is Trust <==> config.auth_file is None && config.auth_type == AuthType::Trust,
{
}

/// A client is listed as it came: under its number, with its address, user and
/// database, as connected to the console exactly where it named that, and with
/// its coming as the time of its last request.
pub proof fn law_clients_are_listed_as_they_came(
    conn_id: u64,
    addr: &Option<String>,
    user: Option<String>,
    database: Option<String>,
    identity: ClientIdentity,
    now: Instant,
    tls: bool,
    r: ClientEntry,
)
    requires
        call_ensures(identify, (user, database), identity),
        call_ensures(client_entry, (conn_id, addr, &identity, now, tls), r),
    ensures
        r.conn_id == conn_id,
        addr matches Some(a) ==> r.addr@ == a@,
        addr is None ==> r.addr@ == "unix"@,
        user matches Some(u) ==> r.user@ == u@,
        user is None ==> r.user@.len() == 0,
        database matches Some(d) ==> r.database@ == d@,
        database is None ==> r.database@.len() == 0,
        r.state == ClientState::Admin <==> database is Some && text::lower_all(database->0@)
            == text::lower_all("pgbouncer"@),
        r.connect_time == now,
        r.last_request_time == now,
        r.tls == tls,
{
}

/// A client is let in exactly where fewer are connected than may be; it gets the
/// next number, and another gets its place when it has left.
pub proof fn law_clients_are_let_in_up_to_the_limit<P>(
    s: &mut ProxyServer<P>,
    r: Option<u64>,
    t: &mut ProxyServer<P>,
)
    requires
        call_ensures(ProxyServer::<P>::accept, (s,), r),
        old(t)@.active > 0,
        call_ensures(ProxyServer::<P>::close, (t,), ()),
    ensures
        r is Some <==> old(s)@.active < old(s)@.limit,
        r matches Some(id) ==> id == old(s)@.accepted + 1 && final(s)@.accepted == id
            && final(s)@.active == old(s)@.active + 1,
        r is None ==> final(s)@ == old(s)@,
        final(s)@.limit == old(s)@.limit,
        final(s)@.pools == old(s)@.pools,
        final(t)@.active == old(t)@.active - 1,
        final(t)@.accepted == old(t)@.accepted,
        final(t)@.limit == old(t)@.limit,
        final(t)@.pools == old(t)@.pools,
{
}

/// A reload that fails leaves the authenticator in use and hands the error on;
/// one that brings another takes that up; one that brings none changes nothing.
pub proof fn law_failed_reload_changes_nothing<A, E>(
    c: &mut AuthCell<A>,
    loaded: Option<Result<A, E>>,
    r: Result<(), E>,
)
    requires
        call_ensures(AuthCell::<A>::apply_config_reload::<E>, (c, loaded), r),
    ensures
        r is Err <==> loaded is Some && loaded->0 is Err,
        r is Err ==> loaded == Some(Err::<A, E>(r->Err_0)),
        loaded matches Some(Ok(a)) ==> final(c)@ == Some(a),
        loaded is None || loaded->0 is Err ==> final(c)@ == old(c)@,
{
}

} // verus!
