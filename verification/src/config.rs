//! Service configuration: the data-source and cache connection settings and
//! the cleanup parameters, with the connection URLs they select.

use vstd::prelude::*;
use vstd::string::StringExecFns;

use crate::codec::{encode10, format_usize};

verus! {

/// A configuration section that selects a connection URL.
pub trait Driver {
    /// The URL this section selects.
    spec fn link_spec(self) -> Seq<char>;

    /// Builds that URL.
    fn to_link(self) -> (r: String)
        ensures
            r@ == self.link_spec(),
    ;
}

/// The whole configuration file.
pub struct Config {
    pub datasource: Datasource,
    pub redis: Redis,
    pub cleanup: Option<Cleanup>,
}

/// Parameters of the cleanup scheduler.
pub struct Cleanup {
    /// Seconds between cycles; 3600 when absent.
    pub interval_secs: Option<u64>,
    /// Records retired per batch; 1000 when absent.
    pub batch_size: Option<usize>,
    /// Whether the cross-instance lease is used; off when absent.
    pub enable_distributed_lock: Option<bool>,
    /// Seconds until the lease expires on its own; 300 when absent.
    pub lock_timeout_secs: Option<u64>,
    /// The cache key of the lease.
    pub lock_key: Option<String>,
}

/// Connection settings of the durable store.
pub struct Datasource {
    pub host: Option<String>,
    pub port: Option<usize>,
    pub user: Option<String>,
    pub password: Option<String>,
    pub max_pool_size: Option<usize>,
    pub min_pool_size: Option<usize>,
    pub idle_timeout: Option<usize>,
    pub db_name: Option<String>,
}

/// Connection settings of the shared cache.
pub struct Redis {
    pub host: Option<String>,
    pub port: Option<usize>,
    pub user_name: Option<String>,
    pub password: Option<String>,
    pub max_size: Option<usize>,
    pub database: Option<usize>,
}

impl Default for Config {
    fn default() -> (r: Self)
        ensures
            r.datasource.host is Some && r.datasource.host->0@ == "localhost"@,
            r.datasource.port == Some(5432usize),
            r.redis.host is Some && r.redis.host->0@ == "localhost"@,
            r.redis.port == Some(6379usize),
            r.cleanup is Some,
            r.cleanup->0.interval_secs == Some(3600u64),
            r.cleanup->0.batch_size == Some(1000usize),
            r.cleanup->0.enable_distributed_lock == Some(false),
    {
        Self { datasource: Datasource::default(), redis: Redis::default(), cleanup: Some(
            Cleanup::default(),
        ) }
    }
}

impl Default for Cleanup {
    fn default() -> (r: Self)
        ensures
            r.interval_secs == Some(3600u64),
            r.batch_size == Some(1000usize),
            r.enable_distributed_lock == Some(false),
            r.lock_timeout_secs == Some(300u64),
            r.lock_key is Some && r.lock_key->0@ == "cleanup:lock"@,
    {
        Self {
            interval_secs: Some(3600),
            batch_size: Some(1000),
            enable_distributed_lock: Some(false),
            lock_timeout_secs: Some(300),
            lock_key: Some("cleanup:lock".to_owned()),
        }
    }
}

impl Default for Datasource {
    fn default() -> (r: Self)
        ensures
            r.host is Some && r.host->0@ == "localhost"@,
            r.port == Some(5432usize),
            r.user is Some && r.user->0@ == "postgres"@,
            r.password is None,
            r.max_pool_size is None,
            r.min_pool_size is None,
            r.idle_timeout is None,
            r.db_name is None,
    {
        Self {
            host: Some("localhost".to_owned()),
            port: Some(5432),
            user: Some("postgres".to_owned()),
            password: None,
            max_pool_size: None,
            min_pool_size: None,
            idle_timeout: None,
            db_name: None,
        }
    }
}

impl Default for Redis {
    fn default() -> (r: Self)
        ensures
            r.host is Some && r.host->0@ == "localhost"@,
            r.port == Some(6379usize),
            r.user_name is None,
            r.password is None,
            r.max_size is None,
            r.database == Some(0usize),
    {
        Self {
            host: Some("localhost".to_owned()),
            port: Some(6379),
            user_name: None,
            password: None,
            max_size: None,
            database: Some(0),
        }
    }
}

impl Driver for Datasource {
    open spec fn link_spec(self) -> Seq<char> {
        "postgres://"@ + (match self.user {
            Some(u) => u@,
            None => "postgres"@,
        }) + ":"@ + (match self.password {
            Some(p) => p@,
            None => ""@,
        }) + "@"@ + (match self.host {
            Some(h) => h@,
            None => "localhost"@,
        }) + ":"@ + encode10((match self.port {
            Some(p) => p,
            None => 5432usize,
        }) as nat) + "/"@ + (match self.db_name {
            Some(d) => d@,
            None => ""@,
        })
    }

    fn to_link(self) -> (r: String) {
        let ghost orig = self;
        let host = match self.host {
            Some(h) => h,
            None => "localhost".to_owned(),
        };
        let port = match self.port {
            Some(p) => p,
            None => 5432,
        };
        let user = match self.user {
            Some(u) => u,
            None => "postgres".to_owned(),
        };
        let password = match self.password {
            Some(p) => p,
            None => "".to_owned(),
        };
        let db_name = match self.db_name {
            Some(d) => d,
            None => "".to_owned(),
        };
        let mut uri = String::from_str("postgres://");
        uri.append(user.as_str());
        uri.append(":");
        uri.append(password.as_str());
        uri.append("@");
        uri.append(host.as_str());
        uri.append(":");
        let port_s = format_usize(port);
        uri.append(port_s.as_str());
        uri.append("/");
        uri.append(db_name.as_str());
        proof {
            assert(uri@ =~= orig.link_spec());
        }
        uri
    }
}

impl Driver for Redis {
    open spec fn link_spec(self) -> Seq<char> {
        "redis://"@ + (match self.user_name {
            Some(a) => a@,
            None => ""@,
        }) + (match self.password {
            Some(p) => ":"@ + p@ + "@"@,
            None => ""@,
        }) + (match self.host {
            Some(h) => h@,
            None => "localhost"@,
        }) + ":"@ + encode10((match self.port {
            Some(p) => p,
            None => 6379usize,
        }) as nat)
    }

    fn to_link(self) -> (r: String) {
        let ghost orig = self;
        let host = match self.host {
            Some(h) => h,
            None => "localhost".to_owned(),
        };
        let port = match self.port {
            Some(p) => p,
            None => 6379,
        };
        let mut uri = String::from_str("redis://");
        match self.user_name {
            Some(account) => {
                uri.append(account.as_str());
            },
            None => {},
        }
        match self.password {
            Some(pwd) => {
                uri.append(":");
                uri.append(pwd.as_str());
                uri.append("@");
            },
            None => {},
        }
        uri.append(host.as_str());
        uri.append(":");
        let port_s = format_usize(port);
        uri.append(port_s.as_str());
        proof {
            reveal_strlit("");
            assert(uri@ =~= orig.link_spec());
        }
        uri
    }
}

} // verus!
