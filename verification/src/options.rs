//! The options of the server.

use vstd::prelude::*;

use crate::app::config::App;
use crate::json::{Json, JsonView};
use crate::table::Dict;
use crate::text::{opt_text, texts};

verus! {

/// Queues in Amazon SQS.
pub struct SqsQueueConfig {
    /// AWS region
    pub region: String,
    /// URL prefix for SQS queues, omitting queue name
    pub queue_url_prefix: Option<String>,
    /// Visibility timeout in seconds (how long a message is invisible after being received)
    pub visibility_timeout: i32,
    /// Optional endpoint URL (for local testing with LocalStack)
    pub endpoint_url: Option<String>,
    /// How many messages to receive at once
    pub max_messages: i32,
    /// Wait time in seconds for long polling (0-20)
    pub wait_time_seconds: i32,
    /// Processing concurrency per queue
    pub concurrency: u32,
    /// Use standard queue (false) or FIFO queue (true)
    pub fifo: bool,
    /// Message group ID for FIFO queues
    pub message_group_id: Option<String>,
}

/// How the servers of a cluster find each other.
pub struct AdapterConfig {
    pub driver: String,
    pub redis: RedisAdapterConfig,
    pub cluster: ClusterAdapterConfig,
    pub nats: NatsConfig,
}

/// A cluster that exchanges messages over Redis.
pub struct RedisAdapterConfig {
    pub requests_timeout: u64,
    pub prefix: String,
    pub redis_pub_options: Dict<Json>,
    pub redis_sub_options: Dict<Json>,
    pub cluster_mode: bool,
}

/// A cluster without Redis.
pub struct ClusterAdapterConfig {
    pub requests_timeout: u64,
}

/// A cluster that exchanges messages over NATS.
pub struct NatsConfig {
    pub requests_timeout: u64,
    pub prefix: String,
    pub servers: Vec<String>,
    pub user: Option<String>,
    pub pass: Option<String>,
    pub token: Option<String>,
    pub timeout: u64,
    pub nodes_number: Option<u32>,
}

/// Where applications are kept.
pub struct AppManagerConfig {
    pub driver: String,
    pub array: ArrayConfig,
    pub cache: CacheSettings,
}

/// Applications that the configuration lists.
pub struct ArrayConfig {
    pub apps: Vec<App>,
}

/// Whether and how long applications are cached.
pub struct CacheSettings {
    pub enabled: bool,
    pub ttl: u64,
}

/// The cache.
pub struct CacheConfig {
    pub driver: String,
    pub redis: RedisConfig,
}

/// A connection to Redis.
pub struct RedisConfig {
    pub redis_options: Dict<Json>,
    pub cluster_mode: bool,
}

/// The limits of channels.
pub struct ChannelLimits {
    pub max_name_length: u32,
    pub cache_ttl: u64,
}

/// How servers announce themselves.
pub struct ClusterConfig {
    pub hostname: String,
    pub hello_interval: u64,
    pub check_interval: u64,
    pub node_timeout: u64,
    pub master_timeout: u64,
    pub port: u16,
    pub prefix: String,
    pub ignore_process: bool,
    pub broadcast: String,
    pub unicast: Option<String>,
    pub multicast: Option<String>,
}

/// Which origins may ask the server.
pub struct CorsConfig {
    pub credentials: bool,
    pub origin: Vec<String>,
    pub methods: Vec<String>,
    pub allowed_headers: Vec<String>,
}

/// The databases.
pub struct DatabaseConfig {
    pub mysql: DatabaseConnection,
    pub postgres: DatabaseConnection,
    pub redis: RedisConnection,
}

/// A connection to a database.
pub struct DatabaseConnection {
    pub host: String,
    pub port: u16,
    pub user: String,
    pub password: String,
    pub database: String,
}

/// A connection to a Redis database.
pub struct RedisConnection {
    pub host: String,
    pub port: u16,
    pub db: u32,
    pub username: Option<String>,
    pub password: Option<String>,
    pub key_prefix: String,
    pub sentinels: Vec<RedisSentinel>,
    pub sentinel_password: Option<String>,
    pub name: String,
    pub cluster_nodes: Vec<ClusterNode>,
}

/// A Redis sentinel.
pub struct RedisSentinel {
    pub host: String,
    pub port: u16,
}

/// A node of a Redis cluster.
pub struct ClusterNode {
    pub host: String,
    pub port: u16,
}

/// How connections to a database are shared.
pub struct DatabasePooling {
    pub enabled: bool,
    pub min: u32,
    pub max: u32,
}

/// The limits of events.
pub struct EventLimits {
    pub max_channels_at_once: String,
    pub max_name_length: String,
    pub max_payload_in_kb: String,
    pub max_batch_size: String,
}

/// This process.
pub struct InstanceConfig {
    pub process_id: String,
}

/// The metrics.
pub struct MetricsConfig {
    pub enabled: bool,
    pub driver: String,
    pub host: String,
    pub prometheus: PrometheusConfig,
    pub port: u16,
}

/// The metrics for Prometheus.
pub struct PrometheusConfig {
    pub prefix: String,
}

/// The limits of presence channels.
pub struct PresenceConfig {
    pub max_members_per_channel: String,
    pub max_member_size_in_kb: String,
}

/// The queues.
pub struct QueueConfig {
    pub driver: String,
    pub redis: RedisQueueConfig,
    pub sqs: SqsQueueConfig,
}

/// Queues in Redis.
pub struct RedisQueueConfig {
    pub concurrency: u32,
    pub redis_options: Dict<Json>,
    pub cluster_mode: bool,
}

/// How many requests are let through.
pub struct RateLimiterConfig {
    pub driver: String,
    pub default_limit_per_second: u32,
    pub default_window_seconds: u64,
    pub api_rate_limit: RateLimit,
    pub websocket_rate_limit: RateLimit,
    pub redis: RedisConfig,
}

/// A number of requests in a span of time.
pub struct RateLimit {
    pub max_requests: u32,
    pub window_seconds: u64,
    pub identifier: Option<String>,
}

/// The certificates.
pub struct SslConfig {
    pub cert_path: String,
    pub key_path: String,
    pub passphrase: String,
    pub ca_path: String,
}

/// The webhooks.
pub struct WebhooksConfig {
    pub batching: BatchingConfig,
}

/// Whether events are collected before they are sent, and how long.
pub struct BatchingConfig {
    pub enabled: bool,
    pub duration: u64,
}

impl Default for AdapterConfig {
    fn default() -> (r: Self)
        ensures
            r.driver@ == "redis"@,
            r.redis.requests_timeout == 5000,
            r.redis.prefix@ == "pusher"@,
            r.redis.redis_pub_options@ == Map::<Seq<char>, JsonView>::empty(),
            r.redis.redis_sub_options@ == Map::<Seq<char>, JsonView>::empty(),
            !r.redis.cluster_mode,
            r.cluster.requests_timeout == 5000,
            r.nats.requests_timeout == 5000,
            r.nats.prefix@ == "pusher"@,
            texts(r.nats.servers@) == seq!["nats://localhost:4222"@],
            r.nats.user is None,
            r.nats.pass is None,
            r.nats.token is None,
            r.nats.timeout == 5000,
            r.nats.nodes_number is None,
    {
        let mut servers: Vec<String> = Vec::new();
        servers.push("nats://localhost:4222".to_string());
        assert(texts(servers@) =~= seq!["nats://localhost:4222"@]);
        AdapterConfig {
            driver: "redis".to_string(),
            redis: RedisAdapterConfig {
                requests_timeout: 5000,
                prefix: "pusher".to_string(),
                redis_pub_options: Dict::new(),
                redis_sub_options: Dict::new(),
                cluster_mode: false,
            },
            cluster: ClusterAdapterConfig { requests_timeout: 5000 },
            nats: NatsConfig {
                requests_timeout: 5000,
                prefix: "pusher".to_string(),
                servers,
                user: None,
                pass: None,
                token: None,
                timeout: 5000,
                nodes_number: None,
            },
        }
    }
}

impl Default for RateLimiterConfig {
    fn default() -> (r: Self)
        ensures
            r.driver@ == "memory"@,
            r.default_limit_per_second == 60,
            r.default_window_seconds == 60,
            r.api_rate_limit.max_requests == 60,
            r.api_rate_limit.window_seconds == 60,
            opt_text(r.api_rate_limit.identifier) == Some("api"@),
            r.websocket_rate_limit.max_requests == 10,
            r.websocket_rate_limit.window_seconds == 60,
            opt_text(r.websocket_rate_limit.identifier) == Some("websocket"@),
            r.redis.redis_options@ == Map::<Seq<char>, JsonView>::empty(),
            !r.redis.cluster_mode,
    {
        RateLimiterConfig {
            driver: "memory".to_string(),
            default_limit_per_second: 60,
            default_window_seconds: 60,
            api_rate_limit: RateLimit {
                max_requests: 60,
                window_seconds: 60,
                identifier: Some("api".to_string()),
            },
            websocket_rate_limit: RateLimit {
                max_requests: 10,
                window_seconds: 60,
                identifier: Some("websocket".to_string()),
            },
            redis: RedisConfig { redis_options: Dict::new(), cluster_mode: false },
        }
    }
}

impl Default for SqsQueueConfig {
    fn default() -> (r: Self)
        ensures
            r.region@ == "us-east-1"@,
            r.queue_url_prefix is None,
            r.visibility_timeout == 30,
            r.endpoint_url is None,
            r.max_messages == 10,
            r.wait_time_seconds == 5,
            r.concurrency == 5,
            !r.fifo,
            opt_text(r.message_group_id) == Some("default"@),
    {
        SqsQueueConfig {
            region: "us-east-1".to_string(),
            queue_url_prefix: None,
            visibility_timeout: 30,
            endpoint_url: None,
            max_messages: 10,
            wait_time_seconds: 5,
            concurrency: 5,
            fifo: false,
            message_group_id: Some("default".to_string()),
        }
    }
}

} // verus!
