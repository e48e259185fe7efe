use sockudo::app::config::App;
use sockudo::app::manager::AppManager;
use sockudo::app::memory_app_manager::MemoryAppManager;
use sockudo::connection::handler::ConnectionHandler;
use sockudo::connection::manager::ConnectionManager;
use sockudo::connection::redis_manager::RedisConnectionManager;
use sockudo::http_handler::{
    batch_events, batch_is_complete, build_cache_payload, channel, channel_users, event_is_complete, events,
    process_single_event, terminate_user_connections, usage, AppError,
};
use sockudo::json::Json;
use sockudo::protocol::{BatchPusherApiMessage, PusherApiMessage};
use sockudo::utils::{data_to_bytes, data_to_bytes_flexible, is_cache_channel};
use sockudo::websocket::SocketId;

fn id(text: &str) -> SocketId {
    SocketId(text.to_string())
}

fn server() -> ConnectionHandler {
    let mut apps = MemoryAppManager::new();
    let mut app = App::default();
    app.id = "app".to_string();
    apps.register_app(app).unwrap();
    let mut server =
        ConnectionHandler::new(apps, RedisConnectionManager::new("node".to_string()));
    for socket in ["1", "2"] {
        server.open_connection("app", &id(socket));
        server.connection_manager.add_socket_to_channel("app", "room", &id(socket));
        server.connection_manager.get_connection(&id(socket), "app").unwrap().drain();
    }
    server
}

fn message(channels: Option<Vec<&str>>, one: Option<&str>) -> PusherApiMessage {
    PusherApiMessage {
        name: Some("news".to_string()),
        data: Some(Json::parse("{\"a\":1}").unwrap()),
        channels: channels.map(|list| list.into_iter().map(|s| s.to_string()).collect()),
        channel: one.map(|s| s.to_string()),
        socket_id: None,
    }
}

fn waiting(server: &mut ConnectionHandler, socket: &str) -> usize {
    server.connection_manager.get_connection(&id(socket), "app").unwrap().outbox.len()
}

#[test]
fn errors_have_their_responses() {
    let of = |e: AppError| (e.into_response(), e.text());
    let m = || "m".to_string();
    assert_eq!(
        of(AppError::AppNotFound(m())),
        ((404, m()), "Application not found: m".to_string())
    );
    assert_eq!(
        of(AppError::AppValidationFailed(m())),
        ((500, m()), "Application validation failed: m".to_string())
    );
    assert_eq!(
        of(AppError::MissingChannelInfo),
        (
            (400, "Request must contain 'channels' (list) or 'channel' (string)".to_string()),
            "Channel validation failed: Missing 'channels' or 'channel' field".to_string()
        )
    );
    assert_eq!(
        of(AppError::TerminationFailed(m())),
        ((500, m()), "User connection termination failed: m".to_string())
    );
    assert_eq!(
        of(AppError::InternalError(m())),
        ((500, m()), "Internal Server Error: m".to_string())
    );
    assert_eq!(
        of(AppError::SerializationError(m())),
        (
            (500, "Internal error during serialization: m".to_string()),
            "Serialization Error: m".to_string()
        )
    );
    assert_eq!(
        of(AppError::HeaderBuildError(m())),
        (
            (500, "Internal error building response: m".to_string()),
            "HTTP Header Build Error: m".to_string()
        )
    );
}

#[test]
fn memory_is_counted_in_bytes() {
    let stats = usage(10, 4);
    assert_eq!((stats.total, stats.used, stats.free), (10240, 4096, 6144));
    assert_eq!(usage(4, 10).free, 0);
}

#[test]
fn cached_events_are_json() {
    let data = Json::parse("{\"a\": [1]}").unwrap();
    assert_eq!(
        build_cache_payload("say \"hi\"", &data),
        "{\"data\":{\"a\":[1]},\"event\":\"say \\\"hi\\\"\"}"
    );
    assert_eq!(
        build_cache_payload("e", &Json::string("x".to_string())),
        "{\"data\":\"x\",\"event\":\"e\"}"
    );
}

#[test]
fn event_goes_to_every_channel() {
    let mut server = server();
    let effects =
        process_single_event(&mut server, "app", &message(Some(vec!["room", "cache-x"]), None))
            .unwrap();
    assert_eq!(effects.len(), 2);
    assert_eq!(effects[0].publication.as_ref().unwrap().channel, "room");
    assert!(effects[0].cached.is_none());
    let cached = effects[1].cached.as_ref().unwrap();
    assert_eq!(cached.key, "app:app:channel:cache-x:cache_miss");
    assert_eq!(cached.value, "{\"data\":{\"a\":1},\"event\":\"news\"}");
    assert_eq!(cached.ttl_seconds, 3600);
    assert_eq!(waiting(&mut server, "1"), 1);
}

#[test]
fn event_excepts_a_connection() {
    let mut server = server();
    let mut event = message(None, Some("room"));
    event.socket_id = Some("1".to_string());
    events(&mut server, "app", &event).unwrap();
    assert_eq!((waiting(&mut server, "1"), waiting(&mut server, "2")), (0, 1));
}

#[test]
fn event_needs_channels_and_an_app() {
    let mut server = server();
    assert!(matches!(
        events(&mut server, "app", &message(None, None)),
        Err(AppError::MissingChannelInfo)
    ));
    assert!(matches!(
        events(&mut server, "app", &message(Some(vec![]), Some("room"))),
        Err(AppError::MissingChannelInfo)
    ));
    let mut nameless = message(None, Some("room"));
    nameless.name = None;
    match events(&mut server, "none", &nameless) {
        Err(AppError::AppNotFound(app)) => assert_eq!(app, "none"),
        _ => panic!("expected an error"),
    }
}

#[test]
fn complete_events_have_names_and_data() {
    let mut event = message(None, Some("room"));
    assert!(event_is_complete(&event));
    event.data = None;
    assert!(event_is_complete(&event));
    event.channel = Some("private-cache-x".to_string());
    assert!(!event_is_complete(&event));
    event.channels = Some(vec!["room".to_string()]);
    assert!(event_is_complete(&event));
    event.channels = Some(vec!["room".to_string(), "cache-x".to_string()]);
    assert!(!event_is_complete(&event));
    event = message(None, Some("room"));
    event.name = None;
    assert!(!event_is_complete(&event));
}

#[test]
fn batch_stops_at_the_first_failure() {
    let mut server = server();
    let batch = BatchPusherApiMessage {
        batch: vec![
            message(None, Some("room")),
            message(None, None),
            message(None, Some("room")),
        ],
    };
    let outcome = batch_events(&mut server, "app", &batch);
    assert_eq!(outcome.processed.len(), 1);
    assert!(matches!(outcome.failure, Some(AppError::MissingChannelInfo)));
    assert_eq!(waiting(&mut server, "1"), 1);
    assert!(batch_is_complete(&batch));
    let mut nameless = message(None, Some("room"));
    nameless.name = None;
    let first = BatchPusherApiMessage { batch: vec![nameless, message(None, None)] };
    assert!(!batch_is_complete(&first));
    let mut nameless = message(None, Some("room"));
    nameless.name = None;
    let last = BatchPusherApiMessage { batch: vec![message(None, None), nameless] };
    assert!(batch_is_complete(&last));
    assert!(batch_events(&mut server, "app", &last).processed.is_empty());
    let good = BatchPusherApiMessage { batch: vec![message(None, Some("room"))] };
    assert!(batch_events(&mut server, "app", &good).failure.is_none());
}

#[test]
fn users_are_terminated_over_http() {
    let mut server = server();
    let conn = server.connection_manager.get_connection(&id("1"), "app").unwrap();
    conn.state.user = Some(Json::parse("{\"id\":\"u\"}").unwrap());
    server.connection_manager.get_namespace("app").add_user(&id("1"));
    assert!(server.connection_manager.user_sockets_exist("app", "u"));
    assert_eq!(terminate_user_connections(&mut server, "app", "u").len(), 1);
    assert!(server.connection_manager.find_connection("app", &id("1")).is_none());
    assert!(server.connection_manager.find_connection("app", &id("2")).is_some());
}

#[test]
fn channels_are_described() {
    let server = server();
    let (json, size) = channel(&server, 2);
    assert_eq!(json.text(), "{\"occupied\":true,\"subscription_count\":2}");
    assert_eq!(size, 40);
    assert_eq!(
        channel(&server, 0).0.text(),
        "{\"occupied\":false,\"subscription_count\":0}"
    );
    let users = Json::parse("[{\"id\":\"ü\"}]").unwrap();
    let (json, size) = channel_users(&users);
    assert_eq!(json.text(), "{\"users\":[{\"id\":\"ü\"}]}");
    assert_eq!(size, json.text().len());
}

#[test]
fn cache_channels_have_cache_in_their_names() {
    for name in ["cache-x", "private-cache-x", "private-encrypted-cache-", "presence-cache-x"] {
        assert!(is_cache_channel(name));
    }
    assert!(is_cache_channel("my-cache-x"));
    assert!(!is_cache_channel("cachex"));
    assert!(!is_cache_channel("CACHE-x"));
    assert!(!is_cache_channel(""));
}

#[test]
fn payloads_are_measured_in_bytes() {
    assert_eq!(data_to_bytes(&vec![]), 0);
    assert_eq!(data_to_bytes(&vec!["abc", "ü"]), 5);
    let values = vec![Json::string("ü".to_string()), Json::parse("{\"a\": 1}").unwrap()];
    assert_eq!(data_to_bytes_flexible(&values), 9);
}
