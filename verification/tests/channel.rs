use sockudo::app::config::App;
use sockudo::channel::manager::ChannelManager;
use sockudo::channel::types::ChannelType;
use sockudo::connection::manager::ConnectionManager;
use sockudo::connection::redis_manager::RedisConnectionManager;
use sockudo::error::Error;
use sockudo::json::Json;
use sockudo::protocol::{MessageData, PusherMessage};
use sockudo::table::Dict;
use sockudo::token::Token;
use sockudo::websocket::SocketId;

fn id(text: &str) -> SocketId {
    SocketId(text.to_string())
}

fn structured(channel: Option<&str>, channel_data: Option<&str>) -> PusherMessage {
    PusherMessage {
        channel: None,
        name: None,
        event: None,
        data: Some(MessageData::Structured {
            channel_data: channel_data.map(|s| s.to_string()),
            channel: channel.map(|s| s.to_string()),
            user_data: None,
            extra: Dict::new(),
        }),
    }
}

fn manager() -> RedisConnectionManager {
    RedisConnectionManager::new("node".to_string())
}

#[test]
fn kinds_of_channels_come_from_their_names() {
    assert_eq!(ChannelType::from_name("news"), ChannelType::Public);
    assert_eq!(ChannelType::from_name(""), ChannelType::Public);
    assert_eq!(ChannelType::from_name("private"), ChannelType::Public);
    assert_eq!(ChannelType::from_name("private-"), ChannelType::Private);
    assert_eq!(ChannelType::from_name("private-x"), ChannelType::Private);
    assert_eq!(ChannelType::from_name("private-encrypted"), ChannelType::PrivateEncrypted);
    assert_eq!(ChannelType::from_name("private-encrypted-x"), ChannelType::Private);
    assert_eq!(ChannelType::from_name("presence-x"), ChannelType::Presence);
    assert_eq!(ChannelType::from_name("xpresence-x"), ChannelType::Public);
}

#[test]
fn restricted_by_prefix() {
    for name in ["private-x", "presence-x", "private-encrypted"] {
        assert!(ChannelType::from_name(name).requires_authentication());
    }
    assert!(!ChannelType::from_name("public-x").requires_authentication());
}

#[test]
fn private_channels_need_authentication() {
    let mut connections = manager();
    let channels = ChannelManager::new();
    let message = structured(Some("private-x"), None);
    match channels.subscribe(&mut connections, &id("a"), &message, "private-x", false, "app") {
        Err(Error::AuthError(m)) => assert_eq!(m, "Channel requires authentication"),
        _ => panic!("expected an error"),
    }
    assert!(!connections.is_subscribed("app", "private-x", &id("a")));
    let answer = channels
        .subscribe(&mut connections, &id("a"), &message, "private-x", true, "app")
        .unwrap();
    assert!(answer.success);
    assert_eq!(answer.channel_connections, Some(1));
    assert!(answer.member.is_none());
    assert!(connections.is_subscribed("app", "private-x", &id("a")));
    let again = channels
        .subscribe(&mut connections, &id("a"), &message, "private-x", true, "app")
        .unwrap();
    assert_eq!(again.channel_connections, Some(1));
}

#[test]
fn subscribe_and_unsubscribe_restore() {
    let mut connections = manager();
    let channels = ChannelManager::new();
    let message = structured(Some("room"), None);
    for (i, one) in ["a", "b"].iter().enumerate() {
        let answer =
            channels.subscribe(&mut connections, &id(one), &message, "room", false, "app").unwrap();
        assert_eq!(answer.channel_connections, Some(i as i32 + 1));
    }
    let left = channels.unsubscribe(&mut connections, &id("a"), "room", "app", None).unwrap();
    assert!(left.left);
    assert_eq!(left.remaining_connections, Some(1));
    assert!(left.member.is_none());
    let again = channels.unsubscribe(&mut connections, &id("a"), "room", "app", None).unwrap();
    assert!(!again.left);
    channels.unsubscribe(&mut connections, &id("b"), "room", "app", None).unwrap();
    assert!(!connections.get_namespace("app").channels.contains_key("room"));
}

#[test]
fn presence_join_and_leave_restore() {
    let mut connections = manager();
    let channels = ChannelManager::new();
    let message = structured(
        Some("presence-x"),
        Some("{\"user_id\":\"u\",\"user_info\":{\"name\":\"Eve\"}}"),
    );
    let answer = channels
        .subscribe(&mut connections, &id("a"), &message, "presence-x", true, "app")
        .unwrap();
    let member = answer.member.unwrap();
    assert_eq!(member.user_id, "u");
    assert_eq!(member.user_info.text(), "{\"name\":\"Eve\"}");
    let ns = connections.get_namespace("app");
    let room = ns.channels.get("presence-x").unwrap();
    assert!(room.presence_members.as_ref().unwrap().contains_key("u"));
    let left = channels
        .unsubscribe(&mut connections, &id("a"), "presence-x", "app", Some("u"))
        .unwrap();
    let member = left.member.unwrap();
    assert_eq!(member.user_id, "u");
    assert_eq!(member.user_info.text(), "{\"name\":\"Eve\"}");
    assert_eq!(member.socket_id, Some("a".to_string()));
    assert_eq!(left.remaining_connections, Some(0));
    assert!(!connections.get_namespace("app").channels.contains_key("presence-x"));
}

#[test]
fn presence_data_are_read() {
    let channels = ChannelManager::new();
    let error = |data: Option<MessageData>| match channels.parse_presence_data(&data) {
        Err(Error::ChannelError(m)) => m,
        Err(Error::SerializationError(m)) => format!("serde: {}", m),
        _ => panic!("expected an error"),
    };
    assert_eq!(error(None), "Missing presence data");
    assert_eq!(error(structured(None, None).data), "Missing channel_data");
    assert_eq!(error(Some(MessageData::String("x".to_string()))), "Invalid presence data format");
    assert_eq!(error(structured(None, Some("{}")).data), "Invalid user_id");
    assert_eq!(error(structured(None, Some("{\"user_id\":7}")).data), "Invalid user_id");
    assert!(error(structured(None, Some("{")).data).starts_with("serde: "));
    let value = Json::parse("{\"user_id\":\"u\"}").unwrap();
    let member = channels.parse_presence_data(&Some(MessageData::Json(value))).unwrap();
    assert_eq!(member.user_id, "u");
    assert_eq!(member.user_info.text(), "null");
    assert!(member.socket_id.is_none());
}

#[test]
fn members_may_name_their_socket() {
    let channels = ChannelManager::new();
    let mut extra: Dict<Json> = Dict::new();
    extra.insert("socket_id".to_string(), Json::string("1.2".to_string()));
    let value = Json::parse("{\"user_id\":\"u\",\"user_info\":1}").unwrap();
    let member = channels.extract_presence_member(&value, &extra).unwrap();
    assert_eq!(member.socket_id, Some("1.2".to_string()));
    assert_eq!(member.user_info.text(), "1");
}

#[test]
fn subscriptions_are_signed() {
    let mut app = App::default();
    app.key = "key".to_string();
    app.secret = "secret".to_string();
    let token = Token::new("key".to_string(), "secret".to_string());
    let channels = ChannelManager::new();
    let private = structured(Some("private-x"), Some("ignored"));
    assert_eq!(
        ChannelManager::get_data_to_sign_for_signature(&id("1.2"), &private),
        "1.2:private-x"
    );
    let expected = format!("key:{}", token.sign("1.2:private-x".to_string()));
    assert_eq!(ChannelManager::get_expected_signature(&app, &id("1.2"), &private), expected);
    assert!(channels.signature_is_valid(&app, &id("1.2"), &expected, &private));
    assert!(!channels.signature_is_valid(&app, &id("1.3"), &expected, &private));
    let presence = structured(Some("presence-x"), Some("{\"user_id\":\"u\"}"));
    assert_eq!(
        ChannelManager::get_data_to_sign_for_signature(&id("1.2"), &presence),
        "1.2:presence-x:{\"user_id\":\"u\"}"
    );
}
