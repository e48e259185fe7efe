use std::collections::HashMap;

use sockudo::app::config::App;
use sockudo::app::manager::AppManager;
use sockudo::app::memory_app_manager::MemoryAppManager;
use sockudo::connection::handler::ConnectionHandler;
use sockudo::connection::redis_manager::RedisConnectionManager;
use sockudo::error::Error;
use sockudo::json::{read_options, Json};
use sockudo::options::{AdapterConfig, RateLimiterConfig, SqsQueueConfig};
use sockudo::queue::queue::{ClientEventData, JobData};
use sockudo::server::{
    address_to_read, debug_flag, handle_app_manager_options, init, normalize, read_value,
    register_apps, set_option, set_options, OptionInput, OptionValue, ServerConfig,
};

fn app(id: &str, key: &str) -> App {
    let mut app = App::default();
    app.id = id.to_string();
    app.key = key.to_string();
    app
}

fn number(n: u64) -> OptionValue {
    OptionValue::Number { text: format!("{}", n), natural: Some(n), whole: true }
}

fn text(s: &str) -> OptionValue {
    OptionValue::Text(s.to_string())
}

#[test]
fn server_config_has_defaults() {
    let config = ServerConfig::default();
    assert_eq!((config.http_host.as_str(), config.http_port), ("127.0.0.1", 6001));
    assert_eq!((config.metrics_host.as_str(), config.metrics_port), ("127.0.0.1", 9601));
    assert!(!config.debug);
}

#[test]
fn debug_is_asked_for_in_any_case() {
    assert!(debug_flag("1"));
    assert!(debug_flag("TRUE"));
    assert!(!debug_flag("yes"));
    assert!(!debug_flag(""));
}

#[test]
fn ids_of_apps_are_texts() {
    let key = "app_manager.array.apps.0.id";
    assert!(matches!(normalize(key, number(7)), OptionValue::Text(t) if t == "7"));
    let fraction =
        OptionValue::Number { text: "1.5".to_string(), natural: None, whole: false };
    assert!(matches!(normalize(key, fraction), OptionValue::Number { .. }));
    assert!(matches!(normalize("port", number(7)), OptionValue::Number { .. }));
    assert!(matches!(normalize(key, OptionValue::Bool(true)), OptionValue::Bool(true)));
}

#[test]
fn options_change_the_configuration() {
    let mut config = ServerConfig::default();
    let mut apps = MemoryAppManager::new();
    set_option(&mut config, &mut apps, "debug", &OptionValue::Bool(true), Ok(())).unwrap();
    assert!(config.debug);
    set_option(&mut config, &mut apps, "port", &number(8080), Ok(())).unwrap();
    assert_eq!(config.http_port, 8080);
    set_option(&mut config, &mut apps, "port", &number(65536 + 5), Ok(())).unwrap();
    assert_eq!(config.http_port, 5);
    let host = Json::string("::1".to_string());
    assert_eq!(address_to_read(&config, "host", &host), Some("::1:5".to_string()));
    assert_eq!(address_to_read(&config, "port", &host), None);
    assert_eq!(address_to_read(&config, "host", &Json::number(1)), None);
    set_option(&mut config, &mut apps, "host", &text("0.0.0.0"), Ok(())).unwrap();
    assert_eq!(config.http_host, "0.0.0.0");
    match set_option(&mut config, &mut apps, "host", &text("?"), Err("bad".to_string())) {
        Err(Error::Config(m)) => assert_eq!(m, "Invalid host: bad"),
        _ => panic!("expected an error"),
    }
    assert_eq!(config.http_host, "0.0.0.0");
    set_option(&mut config, &mut apps, "nothing.known", &number(1), Ok(())).unwrap();
    set_option(&mut config, &mut apps, "debug", &number(0), Ok(())).unwrap();
    assert!(config.debug);
    assert!(apps.get_apps().unwrap().is_empty());
}

#[test]
fn options_are_read_from_json() {
    let mut list = read_options("{\"port\": 1, \"debug\": true, \"port\": 8080}").unwrap();
    list.sort_by(|a, b| a.0.cmp(&b.0));
    let names: Vec<&str> = list.iter().map(|o| o.0.as_str()).collect();
    assert_eq!(names, vec!["debug", "port"]);
    assert_eq!(list[0].1.as_bool(), Some(true));
    assert_eq!(list[1].1.as_u64(), Some(8080));
    assert!(read_options("{}").unwrap().is_empty());
    for text in ["[1]", "null", "{\"a\"", "7"] {
        let expected = serde_json::from_str::<HashMap<String, serde_json::Value>>(text);
        assert_eq!(read_options(text).err(), expected.err().map(|e| e.to_string()));
    }
}

#[test]
fn values_of_options_are_read() {
    let none: Vec<Option<App>> = vec![];
    let read = |text: &str| read_value(&Json::parse(text).unwrap(), &none);
    assert!(matches!(read("true"), OptionValue::Bool(true)));
    assert!(matches!(read("\"x\""), OptionValue::Text(t) if t == "x"));
    assert!(matches!(read("null"), OptionValue::Other));
    assert!(matches!(read("{}"), OptionValue::Other));
    let number = |text: &str| match read(text) {
        OptionValue::Number { text, natural, whole } => (text, natural, whole),
        _ => panic!("expected a number"),
    };
    assert_eq!(number("7"), ("7".to_string(), Some(7), true));
    assert_eq!(number("-7"), ("-7".to_string(), None, true));
    assert_eq!(number("7.0"), ("7.0".to_string(), None, false));
    let most = "18446744073709551615";
    assert_eq!(number(most), (most.to_string(), Some(u64::MAX), true));
    assert!(!number("18446744073709551616").2);
    let apps = vec![None, Some(app("a", "k"))];
    match read_value(&Json::parse("[1, {}]").unwrap(), &apps) {
        OptionValue::Apps(list) => {
            assert!(list[0].is_none());
            assert_eq!(list[1].as_ref().unwrap().id, "a");
        }
        _ => panic!("expected applications"),
    }
    let elements = Json::parse("[1, \"b\"]").unwrap().elements().unwrap();
    assert_eq!(elements[1].text(), "\"b\"");
    assert!(Json::null().elements().is_none());
}

#[test]
fn options_are_set_up_to_the_first_error() {
    let input = |path: &str, json: &str, address: Result<(), String>| OptionInput {
        path: path.to_string(),
        value: Json::parse(json).unwrap(),
        apps: vec![Some(app("a", "k"))],
        address,
    };
    let mut config = ServerConfig::default();
    let mut apps = MemoryAppManager::new();
    let good = vec![
        input("app_manager.array.apps", "[{}]", Ok(())),
        input("app_manager.array.apps.0.id", "9", Ok(())),
        input("port", "7000", Ok(())),
        input("host", "\"0.0.0.0\"", Ok(())),
    ];
    set_options(&mut config, &mut apps, &good).unwrap();
    assert_eq!((config.http_host.as_str(), config.http_port), ("0.0.0.0", 7000));
    assert_eq!(apps.get_app("9").unwrap().unwrap().key, "k");
    let bad = vec![
        input("debug", "true", Ok(())),
        input("host", "\"?\"", Err("bad".to_string())),
        input("port", "1", Ok(())),
    ];
    match set_options(&mut config, &mut apps, &bad) {
        Err(Error::Config(m)) => assert_eq!(m, "Invalid host: bad"),
        _ => panic!("expected an error"),
    }
    assert!(config.debug);
    assert_eq!((config.http_host.as_str(), config.http_port), ("0.0.0.0", 7000));
}

#[test]
fn registered_apps_are_known() {
    let mut apps = MemoryAppManager::new();
    apps.register_app(app("b", "old")).unwrap();
    register_apps(&mut apps, &vec![app("a", "1"), app("b", "2"), app("a", "3")]);
    assert_eq!(apps.get_apps().unwrap().len(), 2);
    assert_eq!(apps.get_app("a").unwrap().unwrap().key, "3");
    assert_eq!(apps.get_app("b").unwrap().unwrap().key, "2");
}

#[test]
fn fields_of_apps_are_set() {
    let mut config = ServerConfig::default();
    let mut apps = MemoryAppManager::new();
    let list = OptionValue::Apps(vec![None, Some(app("a", "k")), None]);
    set_option(&mut config, &mut apps, "app_manager.array.apps", &list, Ok(())).unwrap();
    let mut set = |field: &str, value: OptionValue| {
        let path = format!("app_manager.array.apps.0.{}", field);
        set_option(&mut config, &mut apps, &path, &value, Ok(())).unwrap();
        apps.get_app("a").unwrap().unwrap()
    };
    assert_eq!(set("key", text("key")).key, "key");
    assert_eq!(set("secret", text("s")).secret, "s");
    assert!(set("enabled", OptionValue::Bool(true)).enabled);
    assert!(set("enable_client_messages", OptionValue::Bool(true)).enable_client_messages);
    assert_eq!(set("key", number(1)).key, "key");
    assert_eq!(set("unknown", text("x")).key, "key");
    set("id", number(9));
    assert_eq!(apps.get_app("9").unwrap().unwrap().key, "key");
    assert!(apps.get_app("a").unwrap().is_some());
}

#[test]
fn positions_that_do_not_exist_change_nothing() {
    let mut config = ServerConfig::default();
    let mut apps = MemoryAppManager::new();
    apps.register_app(app("a", "k")).unwrap();
    for path in [
        "app_manager.array.apps.1.key",
        "app_manager.array.apps.x.key",
        "app_manager.array.apps.0",
        "app_manager.array",
        "app_manager.driver",
        "app_manager",
    ] {
        set_option(&mut config, &mut apps, path, &text("new"), Ok(())).unwrap();
    }
    assert_eq!(apps.get_app("a").unwrap().unwrap().key, "k");
    let parts = vec!["array".to_string(), "apps".to_string()];
    handle_app_manager_options(&mut apps, &parts, 0, &OptionValue::Apps(vec![Some(app("z", "k"))]));
    assert!(apps.get_app("z").unwrap().is_some());
}

#[test]
fn every_server_has_the_demo_app() {
    let mut server = ConnectionHandler::new(
        MemoryAppManager::new(),
        RedisConnectionManager::new("node".to_string()),
    );
    init(&mut server).unwrap();
    let demo = server.app_manager.get_app("demo-app").unwrap().unwrap();
    assert_eq!((demo.key.as_str(), demo.secret.as_str()), ("demo-key", "demo-secret"));
    assert!(demo.enabled && demo.enable_client_messages);
}

#[test]
fn options_have_defaults() {
    let adapter = AdapterConfig::default();
    assert_eq!((adapter.driver.as_str(), adapter.redis.prefix.as_str()), ("redis", "pusher"));
    assert_eq!((adapter.redis.requests_timeout, adapter.cluster.requests_timeout), (5000, 5000));
    assert!(adapter.redis.redis_pub_options.len() == 0 && !adapter.redis.cluster_mode);
    assert_eq!(adapter.nats.servers, vec!["nats://localhost:4222"]);
    assert!(adapter.nats.user.is_none() && adapter.nats.nodes_number.is_none());
    let limits = RateLimiterConfig::default();
    assert_eq!(limits.driver, "memory");
    assert_eq!(limits.api_rate_limit.max_requests, 60);
    assert_eq!(limits.websocket_rate_limit.max_requests, 10);
    let sqs = SqsQueueConfig::default();
    assert_eq!(sqs.region, "us-east-1");
    assert_eq!((sqs.visibility_timeout, sqs.wait_time_seconds), (30, 5));
    assert_eq!(sqs.message_group_id, Some("default".to_string()));
    assert!(!sqs.fifo);
}

#[test]
fn jobs_start_blank() {
    let job = JobData::default();
    assert_eq!((job.app_id.as_str(), job.payload.time_ms), ("", 0));
    assert!(job.payload.events.is_empty());
    assert!(ClientEventData::default().time_ms.is_none());
}
