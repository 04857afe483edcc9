//! The parts of the configuration file that hold no floating-point value:
//! the AI assistant, the server, the storage pools; their defaults; and the
//! pool configurations built from the file's pool entries.
use vstd::prelude::*;
use crate::pool::PoolConfig;
use crate::text::{lower_case};
use crate::tier::{config_tier, StorageTier};

verus! {

/// Where the AI assistant's API is reached by default.
pub fn default_api_endpoint() -> (r: String)
    ensures
        r@ == "http://127.0.0.1:7001"@,
{
    "http://127.0.0.1:7001".to_string()
}

/// The default limit on the tokens of an answer.
pub fn default_max_tokens() -> (r: u32)
    ensures
        r == 1024,
{
    1024
}

/// The default timeout of a call to the assistant, in seconds.
pub fn default_timeout_secs() -> (r: u64)
    ensures
        r == 15,
{
    15
}

/// The default limit on a request's size: 5 GiB (held as a `u64`, which
/// can hold it on every target).
pub fn default_max_request_size() -> (r: u64)
    ensures
        r == 5 * 1024 * 1024 * 1024,
{
    5 * 1024 * 1024 * 1024
}

/// The default log level.
pub fn default_log_level() -> (r: String)
    ensures
        r@ == "info"@,
{
    "info".to_string()
}

/// The default directory of the log files.
pub fn default_log_dir() -> (r: String)
    ensures
        r@ == "./logs"@,
{
    "./logs".to_string()
}

/// The default capacity of a configured pool: 100 GiB.
pub fn default_pool_capacity() -> (r: u64)
    ensures
        r == 100 * 1024 * 1024 * 1024,
{
    100 * 1024 * 1024 * 1024
}

/// The default object limit of a configured pool.
pub fn default_max_objects() -> (r: u64)
    ensures
        r == 1_000_000,
{
    1_000_000
}

/// The default tier of a configured pool.
pub fn default_pool_tier() -> (r: String)
    ensures
        r@ == "hot"@,
{
    "hot".to_string()
}

/// The default scheduling strategy, by name.
pub fn default_strategy() -> (r: String)
    ensures
        r@ == "least_loaded"@,
{
    "least_loaded".to_string()
}

/// How the AI assistant is reached.
pub struct AiConfig {
    pub enabled: bool,
    pub api_endpoint: String,
    pub api_key: String,
    pub model: String,
    pub max_tokens: u32,
    pub timeout_secs: u64,
    pub auto_tag: bool,
}

impl Default for AiConfig {
    /// Disabled, with no key and no model, at the default endpoint and limits.
    fn default() -> (r: Self)
        ensures
            !r.enabled,
            r.api_endpoint@ == "http://127.0.0.1:7001"@,
            r.api_key@.len() == 0,
            r.model@.len() == 0,
            r.max_tokens == 1024,
            r.timeout_secs == 15,
            !r.auto_tag,
    {
        AiConfig {
            enabled: false,
            api_endpoint: default_api_endpoint(),
            api_key: String::new(),
            model: String::new(),
            max_tokens: default_max_tokens(),
            timeout_secs: default_timeout_secs(),
            auto_tag: false,
        }
    }
}

/// Where and how the server listens, and where it logs.
pub struct ServerConfig {
    pub host: String,
    pub port: u16,
    pub s3_port: u16,
    pub enable_tls: bool,
    pub tls_cert: String,
    pub tls_key: String,
    pub max_request_size: u64,
    pub log_level: String,
    pub log_dir: String,
}

impl Default for ServerConfig {
    /// Every address, port 8080 for both APIs, no TLS, and the default
    /// limits and logging.
    fn default() -> (r: Self)
        ensures
            r.host@ == "0.0.0.0"@,
            r.port == 8080,
            r.s3_port == 8080,
            !r.enable_tls,
            r.tls_cert@.len() == 0,
            r.tls_key@.len() == 0,
            r.max_request_size == 5 * 1024 * 1024 * 1024,
            r.log_level@ == "info"@,
            r.log_dir@ == "./logs"@,
    {
        ServerConfig {
            host: "0.0.0.0".to_string(),
            port: 8080,
            s3_port: 8080,
            enable_tls: false,
            tls_cert: String::new(),
            tls_key: String::new(),
            max_request_size: default_max_request_size(),
            log_level: default_log_level(),
            log_dir: default_log_dir(),
        }
    }
}

/// A pool as the configuration file describes it; the tier is named.
pub struct StoragePoolConfig {
    pub id: String,
    pub path: String,
    pub capacity: u64,
    pub max_objects: u64,
    pub quota_enabled: bool,
    pub tier: String,
}

/// The pool configuration a file entry stands for.
pub open spec fn pool_config_of(c: StoragePoolConfig) -> PoolConfig {
    PoolConfig {
        id: c.id,
        path: c.path,
        capacity: c.capacity,
        max_objects: c.max_objects,
        quota_enabled: c.quota_enabled,
        tier: config_tier(lower_case(c.tier@)),
    }
}

/// The pool configurations of the file's pool entries, in order; a tier
/// name is read case-insensitively, and an unknown one is hot.
pub fn to_pool_configs(pools: &[StoragePoolConfig]) -> (r: Vec<PoolConfig>)
    ensures
        r@.len() == pools@.len(),
        forall|i: int| 0 <= i < pools@.len() ==> #[trigger] r@[i] == pool_config_of(pools@[i]),
{
    let mut out: Vec<PoolConfig> = Vec::new();
    let mut i: usize = 0;
    while i < pools.len()
        invariant
            i <= pools@.len(),
            out@.len() == i,
            forall|j: int| 0 <= j < i ==> #[trigger] out@[j] == pool_config_of(pools@[j]),
        decreases pools.len() - i,
    {
        let c = &pools[i];
        out.push(PoolConfig {
            id: c.id.clone(),
            path: c.path.clone(),
            capacity: c.capacity,
            max_objects: c.max_objects,
            quota_enabled: c.quota_enabled,
            tier: StorageTier::from_str_lower(c.tier.as_str()),
        });
        i = i + 1;
    }
    out
}

/// The data directory of the default configuration.
pub fn default_data_dir() -> (r: String)
    ensures
        r@ == "./data"@,
{
    "./data".to_string()
}

/// The pools of the default configuration: `pool-001` (hot) and `pool-002`
/// (warm), each of 100 GiB and a million objects, without quota, under
/// `./data/pools`.
pub fn default_pools() -> (r: Vec<StoragePoolConfig>)
    ensures
        r@.len() == 2,
        r@[0].id@ == "pool-001"@,
        r@[0].path@ == "./data/pools/pool-001"@,
        r@[0].tier@ == "hot"@,
        r@[1].id@ == "pool-002"@,
        r@[1].path@ == "./data/pools/pool-002"@,
        r@[1].tier@ == "warm"@,
        forall|i: int| 0 <= i < 2 ==> #[trigger] r@[i].capacity == 100 * 1024 * 1024 * 1024
            && r@[i].max_objects == 1_000_000 && !r@[i].quota_enabled,
{
    let mut v: Vec<StoragePoolConfig> = Vec::new();
    v.push(StoragePoolConfig {
        id: "pool-001".to_string(),
        path: "./data/pools/pool-001".to_string(),
        capacity: 100 * 1024 * 1024 * 1024,
        max_objects: 1_000_000,
        quota_enabled: false,
        tier: "hot".to_string(),
    });
    v.push(StoragePoolConfig {
        id: "pool-002".to_string(),
        path: "./data/pools/pool-002".to_string(),
        capacity: 100 * 1024 * 1024 * 1024,
        max_objects: 1_000_000,
        quota_enabled: false,
        tier: "warm".to_string(),
    });
    v
}

} // verus!
