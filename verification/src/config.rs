//! Settings that the rest of the library reads.
use vstd::prelude::*;

verus! {

/// How long a client keeps its backend connection.
#[derive(Debug, Clone, Copy, PartialEq, Eq, Structural)]
pub enum PoolingStrategy {
    /// No pool: a connection for each client.
    Disabled,
    /// Until the client leaves.
    Session,
    /// Until the transaction ends.
    Transaction,
    /// Until the transaction ends, unless the session holds state.
    Hybrid,
}

/// What a client is told when no connection can be had.
#[derive(Debug, Clone, Copy, PartialEq, Eq, Structural)]
pub enum BackpressureMode {
    /// Nothing.
    RejectImmediate,
    /// An error with advice to retry.
    RetryHint,
    /// Nothing; the rejection is logged.
    LogAndReject,
}

/// What becomes of an event whose query cannot be anonymized.
#[derive(Debug, Clone, Copy, PartialEq, Eq, Structural)]
pub enum ParseFailureMode {
    /// The event is dropped.
    Drop,
    /// The query is replaced by a fixed text.
    Redact,
}

/// How a side of the proxy uses TLS.
#[derive(Debug, Clone, Copy, PartialEq, Eq, Structural)]
pub enum TlsSslMode {
    /// Never.
    Disable,
    /// Where the other side offers it.
    Allow,
    /// Always, without looking at certificates.
    Require,
    /// Always, with a certificate from a known authority.
    VerifyCa,
    /// Always, with a certificate from a known authority for the right host.
    VerifyFull,
}

impl TlsSslMode {
    /// Whether a connection without TLS is not allowed.
    pub open spec fn demands_tls(self) -> bool {
        match self {
            TlsSslMode::Disable | TlsSslMode::Allow => false,
            TlsSslMode::Require | TlsSslMode::VerifyCa | TlsSslMode::VerifyFull => true,
        }
    }
}

/// What the settings say of the anonymization of events.
#[derive(Debug, Clone, Copy)]
pub struct PublisherConfig {
    /// Whether events are anonymized.
    pub anonymize: bool,
    /// What becomes of an event whose query cannot be anonymized.
    pub parse_failure_mode: ParseFailureMode,
}

/// What a backend speaks.
#[derive(Debug, Clone, Copy, PartialEq, Eq, Structural)]
pub enum DatabaseProtocol {
    Postgres,
}

/// The backend that clients get where nothing else is configured.
#[derive(Debug)]
pub struct BackendConfig {
    pub protocol: DatabaseProtocol,
    pub host: String,
    pub port: u16,
    pub database: String,
    pub user: String,
    pub password: String,
    pub password_file: Option<String>,
    pub pool_size: usize,
    pub connection_timeout_ms: u64,
}

/// A database that clients can ask for by name.
#[derive(Debug)]
pub struct DatabaseConfig {
    /// The name that clients use.
    pub name: String,
    pub host: String,
    pub port: u16,
    /// The database on the backend.
    pub database: String,
    pub user: String,
    pub password: String,
    /// The size of its pool; without one, the size that pools have.
    pub pool_size: Option<usize>,
}

impl DatabaseConfig {
    /// A copy.
    pub fn copy(&self) -> (r: Self)
        ensures
            r == *self,
    {
        DatabaseConfig {
            name: self.name.clone(),
            host: self.host.clone(),
            port: self.port,
            database: self.database.clone(),
            user: self.user.clone(),
            password: self.password.clone(),
            pool_size: self.pool_size,
        }
    }
}

/// How both sides of the proxy use TLS.
#[derive(Debug)]
pub struct TlsConfig {
    /// Towards clients.
    pub client_tls_sslmode: TlsSslMode,
    pub client_tls_cert_file: Option<String>,
    pub client_tls_key_file: Option<String>,
    pub client_tls_ca_file: Option<String>,
    /// Towards backends.
    pub server_tls_sslmode: TlsSslMode,
    pub server_tls_ca_file: Option<String>,
    pub server_tls_cert_file: Option<String>,
    pub server_tls_key_file: Option<String>,
}

impl Default for TlsConfig {
    fn default() -> (r: Self)
        ensures
            r == (TlsConfig {
                client_tls_sslmode: TlsSslMode::Disable,
                client_tls_cert_file: None,
                client_tls_key_file: None,
                client_tls_ca_file: None,
                server_tls_sslmode: TlsSslMode::Disable,
                server_tls_ca_file: None,
                server_tls_cert_file: None,
                server_tls_key_file: None,
            }),
    {
        TlsConfig {
            client_tls_sslmode: TlsSslMode::Disable,
            client_tls_cert_file: None,
            client_tls_key_file: None,
            client_tls_ca_file: None,
            server_tls_sslmode: TlsSslMode::Disable,
            server_tls_ca_file: None,
            server_tls_cert_file: None,
            server_tls_key_file: None,
        }
    }
}

/// Settings of the pools.
#[derive(Debug, Clone, Copy)]
pub struct PerformanceConfig {
    /// How long clients keep their backend connection.
    pub connection_pooling: PoolingStrategy,
    /// How many connections a pool has, where its database does not say.
    pub pool_size: usize,
    /// How many connections a pool keeps without use.
    pub pool_min_idle: usize,
    /// Whether the connection that was used last is used next.
    pub pool_lifo: bool,
    /// How many clients may wait for a connection.
    pub pool_queue_depth: usize,
    /// How many seconds a client waits for a connection.
    pub pool_timeout_secs: u64,
    /// After how many seconds without use a sticky connection is given up; 0 is never.
    pub pool_idle_unpin_secs: u64,
}

/// How clients prove who they are.
#[derive(Debug, Clone, Copy, PartialEq, Eq, Structural)]
pub enum AuthType {
    /// Not at all.
    Trust,
    /// With a password, sent as an MD5 digest.
    Md5,
}

/// How clients are authenticated.
#[derive(Debug)]
pub struct AuthConfig {
    pub auth_type: AuthType,
    /// The file with the users and their passwords.
    pub auth_file: Option<String>,
}

/// Who may use the admin console.
#[derive(Debug)]
pub struct AdminConfig {
    pub enabled: bool,
    pub admin_users: Option<Vec<String>>,
    pub admin_password: Option<String>,
}

impl Default for AdminConfig {
    fn default() -> (r: Self)
        ensures
            r == (AdminConfig { enabled: false, admin_users: None, admin_password: None }),
    {
        AdminConfig { enabled: false, admin_users: None, admin_password: None }
    }
}

} // verus!
