//! Configuration model: the serialisable host description, its conversions
//! to and from live host records, and the sample hosts a fresh
//! installation starts with. Reading and writing the configuration file
//! itself is the caller's business; this module owns the data and its
//! conversions.
use vstd::prelude::*;
use vstd::string::*;

use crate::models::{AuthMethod, AuthView, ServerConnection};

verus! {

/// Authentication method as it appears in the configuration file.
#[derive(Debug)]
pub enum AuthMethodConfig {
    Password,
    PublicKey { key_path: String },
    Agent,
    Interactive,
}

impl View for AuthMethodConfig {
    type V = AuthView;

    open spec fn view(&self) -> AuthView {
        match self {
            AuthMethodConfig::Password => AuthView::Password,
            AuthMethodConfig::PublicKey { key_path } => AuthView::PublicKey {
                key_path: key_path@,
            },
            AuthMethodConfig::Agent => AuthView::Agent,
            AuthMethodConfig::Interactive => AuthView::Interactive,
        }
    }
}

impl Clone for AuthMethodConfig {
    fn clone(&self) -> (r: Self)
        ensures
            r@ == self@,
    {
        match self {
            AuthMethodConfig::Password => AuthMethodConfig::Password,
            AuthMethodConfig::PublicKey { key_path } => AuthMethodConfig::PublicKey {
                key_path: key_path.clone(),
            },
            AuthMethodConfig::Agent => AuthMethodConfig::Agent,
            AuthMethodConfig::Interactive => AuthMethodConfig::Interactive,
        }
    }
}

impl AuthMethodConfig {
    /// The live-record form of this configured method.
    pub fn to_auth_method(self) -> (r: AuthMethod)
        ensures
            r@ == self@,
    {
        match self {
            AuthMethodConfig::Password => AuthMethod::Password,
            AuthMethodConfig::PublicKey { key_path } => AuthMethod::PublicKey { key_path },
            AuthMethodConfig::Agent => AuthMethod::Agent,
            AuthMethodConfig::Interactive => AuthMethod::Interactive,
        }
    }
}

impl AuthMethod {
    /// The configuration-file form of this method.
    pub fn to_config(self) -> (r: AuthMethodConfig)
        ensures
            r@ == self@,
    {
        match self {
            AuthMethod::Password => AuthMethodConfig::Password,
            AuthMethod::PublicKey { key_path } => AuthMethodConfig::PublicKey { key_path },
            AuthMethod::Agent => AuthMethodConfig::Agent,
            AuthMethod::Interactive => AuthMethodConfig::Interactive,
        }
    }
}

/// A host description as stored in the configuration file.
#[derive(Debug)]
pub struct ServerConfig {
    pub name: String,
    pub host: String,
    pub port: u16,
    pub username: String,
    pub auth_method: AuthMethodConfig,
    pub description: Option<String>,
    pub tags: Vec<String>,
    /// Custom connection timeout in seconds, when set.
    pub timeout: Option<u64>,
}

/// Mathematical image of a configured host.
#[verifier::ext_equal]
pub struct ServerConfigView {
    pub name: Seq<char>,
    pub host: Seq<char>,
    pub port: u16,
    pub username: Seq<char>,
    pub auth_method: AuthView,
    pub description: Option<Seq<char>>,
    pub tags: Seq<Seq<char>>,
    pub timeout: Option<u64>,
}

impl View for ServerConfig {
    type V = ServerConfigView;

    open spec fn view(&self) -> ServerConfigView {
        ServerConfigView {
            name: self.name@,
            host: self.host@,
            port: self.port,
            username: self.username@,
            auth_method: self.auth_method@,
            description: match self.description {
                Some(d) => Some(d@),
                None => None,
            },
            tags: self.tags.deep_view(),
            timeout: self.timeout,
        }
    }
}

impl Clone for ServerConfig {
    fn clone(&self) -> (r: Self)
        ensures
            r@ == self@,
    {
        let mut tags: Vec<String> = Vec::new();
        let mut i: usize = 0;
        while i < self.tags.len()
            invariant
                i <= self.tags@.len(),
                tags@.len() == i,
                forall|k: int| 0 <= k < i ==> tags@[k]@ == self.tags@[k]@,
            decreases self.tags@.len() - i,
        {
            tags.push(self.tags[i].clone());
            i = i + 1;
        }
        let r = ServerConfig {
            name: self.name.clone(),
            host: self.host.clone(),
            port: self.port,
            username: self.username.clone(),
            auth_method: self.auth_method.clone(),
            description: match &self.description {
                Some(d) => Some(d.clone()),
                None => None,
            },
            tags,
            timeout: self.timeout,
        };
        proof {
            assert(r.tags.deep_view() =~= self.tags.deep_view());
            assert(r@ =~= self@);
        }
        r
    }
}

impl ServerConfig {
    /// A live host record for this configured host: same coordinates, auth,
    /// description and tags, a freshly drawn id, and unknown status.
    pub fn to_connection(self) -> (r: ServerConnection)
        ensures
            r@.name == self@.name,
            r@.host == self@.host,
            r@.port == self@.port,
            r@.username == self@.username,
            r@.auth_method == self@.auth_method,
            r@.description == self@.description,
            r@.tags == self@.tags,
            r@.health_status is Unknown,
            r@.security_status is Unknown,
            r@.stats == crate::models::fresh_stats(),
            r@.active_sessions.len() == 0,
            r@.id.len() == 36,
    {
        let ServerConfig { name, host, port, username, auth_method, description, tags, timeout: _ } =
            self;
        let mut connection = ServerConnection::new(name, host, port, username);
        connection.auth_method = auth_method.to_auth_method();
        connection.description = description;
        connection.tags = tags;
        connection
    }
}

impl ServerConnection {
    /// The configuration-file description of this host record: the stored
    /// coordinates, auth, description and tags; the timeout is left at the
    /// default.
    pub fn to_config(self) -> (r: ServerConfig)
        ensures
            r@.name == self@.name,
            r@.host == self@.host,
            r@.port == self@.port,
            r@.username == self@.username,
            r@.auth_method == self@.auth_method,
            r@.description == self@.description,
            r@.tags == self@.tags,
            r@.timeout is None,
    {
        let ServerConnection { name, host, port, username, auth_method, description, tags, .. } =
            self;
        ServerConfig {
            name,
            host,
            port,
            username,
            auth_method: auth_method.to_config(),
            description,
            tags,
            timeout: None,
        }
    }
}

/// Finds the configuration on disk and converts between the stored form
/// and live host records. The caller resolves the platform configuration
/// directory and hands the resulting path in.
#[derive(Debug)]
pub struct ConfigManager {
    config_path: String,
}

impl View for ConfigManager {
    type V = Seq<char>;

    closed spec fn view(&self) -> Seq<char> {
        self.config_path@
    }
}

impl ConfigManager {
    /// A manager reading and writing the given configuration file path.
    pub fn new(config_path: String) -> (r: Self)
        ensures
            r@ == config_path@,
    {
        ConfigManager { config_path }
    }

    /// Where the configuration lives.
    pub fn config_path(&self) -> (r: &str)
        ensures
            r@ == self@,
    {
        self.config_path.as_str()
    }

    /// Live host records for a keyed list of configured hosts: each record
    /// takes its configured fields, and its id is the configuration key.
    pub fn config_to_connections(&self, servers: Vec<(String, ServerConfig)>) -> (r: Vec<
        ServerConnection,
    >)
        ensures
            r@.len() == servers@.len(),
            forall|i: int|
                0 <= i < r@.len() ==> {
                    let c = #[trigger] (r@[i])@;
                    let entry = servers@[i];
                    &&& c.id == (entry.0)@
                    &&& c.name == (entry.1)@.name
                    &&& c.host == (entry.1)@.host
                    &&& c.port == (entry.1)@.port
                    &&& c.username == (entry.1)@.username
                    &&& c.auth_method == (entry.1)@.auth_method
                    &&& c.description == (entry.1)@.description
                    &&& c.tags == (entry.1)@.tags
                    &&& c.health_status is Unknown
                    &&& c.security_status is Unknown
                    &&& c.active_sessions.len() == 0
                },
    {
        let mut servers = servers;
        let mut r: Vec<ServerConnection> = Vec::new();
        let ghost all = servers@;
        // Consume the entries from the back, then restore the order.
        let mut rev: Vec<ServerConnection> = Vec::new();
        while servers.len() > 0
            invariant
                servers@.len() + rev@.len() == all.len(),
                servers@ == all.take(servers@.len() as int),
                forall|k: int|
                    0 <= k < rev@.len() ==> {
                        let c = #[trigger] (rev@[k])@;
                        let entry = all[all.len() - 1 - k];
                        &&& c.id == (entry.0)@
                        &&& c.name == (entry.1)@.name
                        &&& c.host == (entry.1)@.host
                        &&& c.port == (entry.1)@.port
                        &&& c.username == (entry.1)@.username
                        &&& c.auth_method == (entry.1)@.auth_method
                        &&& c.description == (entry.1)@.description
                        &&& c.tags == (entry.1)@.tags
                        &&& c.health_status is Unknown
                        &&& c.security_status is Unknown
                        &&& c.active_sessions.len() == 0
                    },
            decreases servers@.len(),
        {
            let (id, config) = servers.pop().unwrap();
            let mut connection = config.to_connection();
            connection.id = id;
            rev.push(connection);
        }
        let mut j: usize = rev.len();
        while j > 0
            invariant
                j <= rev@.len() == all.len(),
                r@.len() == all.len() - j,
                forall|k: int|
                    0 <= k < r@.len() ==> {
                        let c = #[trigger] (r@[k])@;
                        let entry = all[k];
                        &&& c.id == (entry.0)@
                        &&& c.name == (entry.1)@.name
                        &&& c.host == (entry.1)@.host
                        &&& c.port == (entry.1)@.port
                        &&& c.username == (entry.1)@.username
                        &&& c.auth_method == (entry.1)@.auth_method
                        &&& c.description == (entry.1)@.description
                        &&& c.tags == (entry.1)@.tags
                        &&& c.health_status is Unknown
                        &&& c.security_status is Unknown
                        &&& c.active_sessions.len() == 0
                    },
                forall|k: int|
                    0 <= k < rev@.len() ==> {
                        let c = #[trigger] (rev@[k])@;
                        let entry = all[all.len() - 1 - k];
                        &&& c.id == (entry.0)@
                        &&& c.name == (entry.1)@.name
                        &&& c.host == (entry.1)@.host
                        &&& c.port == (entry.1)@.port
                        &&& c.username == (entry.1)@.username
                        &&& c.auth_method == (entry.1)@.auth_method
                        &&& c.description == (entry.1)@.description
                        &&& c.tags == (entry.1)@.tags
                        &&& c.health_status is Unknown
                        &&& c.security_status is Unknown
                        &&& c.active_sessions.len() == 0
                    },
            decreases j,
        {
            j = j - 1;
            let c = rev[j].clone();
            r.push(c);
        }
        r
    }

    /// The keyed configuration list for a list of live host records: each
    /// entry is keyed by the record's id.
    pub fn connections_to_config(&self, connections: &Vec<ServerConnection>) -> (r: Vec<
        (String, ServerConfig),
    >)
        ensures
            r@.len() == connections@.len(),
            forall|i: int|
                0 <= i < r@.len() ==> {
                    let entry = #[trigger] r@[i];
                    let c = (connections@[i])@;
                    &&& (entry.0)@ == c.id
                    &&& (entry.1)@.name == c.name
                    &&& (entry.1)@.host == c.host
                    &&& (entry.1)@.port == c.port
                    &&& (entry.1)@.username == c.username
                    &&& (entry.1)@.auth_method == c.auth_method
                    &&& (entry.1)@.description == c.description
                    &&& (entry.1)@.tags == c.tags
                    &&& (entry.1)@.timeout is None
                },
    {
        let n: usize = connections.len();
        let mut r: Vec<(String, ServerConfig)> = Vec::new();
        let mut i: usize = 0;
        while i < n
            invariant
                0 <= i <= n == connections@.len(),
                r@.len() == i,
                forall|k: int|
                    0 <= k < i ==> {
                        let entry = #[trigger] r@[k];
                        let c = (connections@[k])@;
                        &&& (entry.0)@ == c.id
                        &&& (entry.1)@.name == c.name
                        &&& (entry.1)@.host == c.host
                        &&& (entry.1)@.port == c.port
                        &&& (entry.1)@.username == c.username
                        &&& (entry.1)@.auth_method == c.auth_method
                        &&& (entry.1)@.description == c.description
                        &&& (entry.1)@.tags == c.tags
                        &&& (entry.1)@.timeout is None
                    },
            decreases n - i,
        {
            let c = connections[i].clone();
            let id = c.id.clone();
            let config = c.to_config();
            r.push((id, config));
            i = i + 1;
        }
        r
    }
}

/// The sample hosts a fresh installation starts with, keyed as the
/// configuration stores them.
pub fn default_servers() -> (r: Vec<(String, ServerConfig)>)
    ensures
        r@.len() == 3,
        (r@[0].0)@ == "server_1"@,
        (r@[0].1)@ == (ServerConfigView {
            name: "Production Server"@,
            host: "prod.example.com"@,
            port: 22,
            username: "admin"@,
            auth_method: AuthView::Agent,
            description: Some("Main production server"@),
            tags: seq!["production"@, "web"@],
            timeout: Some(10),
        }),
        (r@[1].0)@ == "server_2"@,
        (r@[1].1)@ == (ServerConfigView {
            name: "Development Box"@,
            host: "dev.local"@,
            port: 22,
            username: "developer"@,
            auth_method: AuthView::PublicKey { key_path: "~/.ssh/id_rsa"@ },
            description: Some("Development environment"@),
            tags: seq!["development"@, "local"@],
            timeout: Some(5),
        }),
        (r@[2].0)@ == "server_3"@,
        (r@[2].1)@ == (ServerConfigView {
            name: "Database Server"@,
            host: "db.example.com"@,
            port: 22,
            username: "dbadmin"@,
            auth_method: AuthView::Agent,
            description: Some("Database server cluster"@),
            tags: seq!["database"@, "production"@],
            timeout: Some(15),
        }),
{
    let mut r: Vec<(String, ServerConfig)> = Vec::new();
    let mut tags1: Vec<String> = Vec::new();
    tags1.push(String::from_str("production"));
    tags1.push(String::from_str("web"));
    let s1 = ServerConfig {
        name: String::from_str("Production Server"),
        host: String::from_str("prod.example.com"),
        port: 22,
        username: String::from_str("admin"),
        auth_method: AuthMethodConfig::Agent,
        description: Some(String::from_str("Main production server")),
        tags: tags1,
        timeout: Some(10),
    };
    proof {
        assert(s1@.tags =~= seq!["production"@, "web"@]);
        assert(s1@ =~= (ServerConfigView {
            name: "Production Server"@,
            host: "prod.example.com"@,
            port: 22,
            username: "admin"@,
            auth_method: AuthView::Agent,
            description: Some("Main production server"@),
            tags: seq!["production"@, "web"@],
            timeout: Some(10),
        }));
    }
    r.push((String::from_str("server_1"), s1));
    let mut tags2: Vec<String> = Vec::new();
    tags2.push(String::from_str("development"));
    tags2.push(String::from_str("local"));
    let s2 = ServerConfig {
        name: String::from_str("Development Box"),
        host: String::from_str("dev.local"),
        port: 22,
        username: String::from_str("developer"),
        auth_method: AuthMethodConfig::PublicKey { key_path: String::from_str("~/.ssh/id_rsa") },
        description: Some(String::from_str("Development environment")),
        tags: tags2,
        timeout: Some(5),
    };
    proof {
        assert(s2@.tags =~= seq!["development"@, "local"@]);
        assert(s2@ =~= (ServerConfigView {
            name: "Development Box"@,
            host: "dev.local"@,
            port: 22,
            username: "developer"@,
            auth_method: AuthView::PublicKey { key_path: "~/.ssh/id_rsa"@ },
            description: Some("Development environment"@),
            tags: seq!["development"@, "local"@],
            timeout: Some(5),
        }));
    }
    r.push((String::from_str("server_2"), s2));
    let mut tags3: Vec<String> = Vec::new();
    tags3.push(String::from_str("database"));
    tags3.push(String::from_str("production"));
    let s3 = ServerConfig {
        name: String::from_str("Database Server"),
        host: String::from_str("db.example.com"),
        port: 22,
        username: String::from_str("dbadmin"),
        auth_method: AuthMethodConfig::Agent,
        description: Some(String::from_str("Database server cluster")),
        tags: tags3,
        timeout: Some(15),
    };
    proof {
        assert(s3@.tags =~= seq!["database"@, "production"@]);
        assert(s3@ =~= (ServerConfigView {
            name: "Database Server"@,
            host: "db.example.com"@,
            port: 22,
            username: "dbadmin"@,
            auth_method: AuthView::Agent,
            description: Some("Database server cluster"@),
            tags: seq!["database"@, "production"@],
            timeout: Some(15),
        }));
    }
    r.push((String::from_str("server_3"), s3));
    r
}

} // verus!
