use sockudo::app::auth::{AuthValidator, ChannelAuth, AuthValidationResult};
use sockudo::app::config::{number_from_text, optional_number_from_text, App};
use sockudo::app::manager::AppManager;
use sockudo::app::memory_app_manager::MemoryAppManager;
use sockudo::error::Error;
use sockudo::token::Token;
use sockudo::websocket::SocketId;

fn app(id: &str, key: &str, secret: &str) -> App {
    let mut app = App::default();
    app.id = id.to_string();
    app.key = key.to_string();
    app.secret = secret.to_string();
    app
}

fn registry() -> MemoryAppManager {
    let mut manager = MemoryAppManager::new();
    manager.register_app(app("one", "key-one", "s1")).unwrap();
    let mut two = app("two", "key-two", "s2");
    two.enable_client_messages = true;
    two.max_channel_name_length = Some(5);
    manager.register_app(two).unwrap();
    manager
}

#[test]
fn default_app_has_nothing() {
    let app = App::default();
    assert_eq!(app.id, "");
    assert_eq!(app.max_connections, 0);
    assert!(!app.enabled);
    assert!(app.max_event_batch_size.is_none());
    assert!(app.webhooks().is_none());
}

#[test]
fn numbers_are_read_from_text() {
    assert_eq!(number_from_text("0"), Some(0));
    assert_eq!(number_from_text("+12"), Some(12));
    assert_eq!(number_from_text("4294967295"), Some(u32::MAX));
    assert_eq!(number_from_text("4294967296"), None);
    assert_eq!(number_from_text(""), None);
    assert_eq!(number_from_text("-1"), None);
    assert_eq!(number_from_text("1a"), None);
    assert_eq!(optional_number_from_text(None), Some(None));
    assert_eq!(optional_number_from_text(Some("7")), Some(Some(7)));
    assert_eq!(optional_number_from_text(Some("x")), None);
}

#[test]
fn registered_app_is_found_until_removed() {
    let mut manager = registry();
    assert!(manager.init().is_ok());
    assert_eq!(manager.get_app("one").unwrap().unwrap().key, "key-one");
    assert!(manager.validate_key("one").unwrap());
    assert!(!manager.validate_key("three").unwrap());
    assert_eq!(manager.get_app_by_key("key-two").unwrap().unwrap().id, "two");
    assert!(manager.get_app_by_key("nobody").unwrap().is_none());
    manager.update_app(app("one", "new-key", "s1")).unwrap();
    assert_eq!(manager.get_app("one").unwrap().unwrap().key, "new-key");
    assert!(manager.get_app("two").unwrap().is_some());
    manager.remove_app("one").unwrap();
    assert!(manager.get_app("one").unwrap().is_none());
    assert!(manager.get_app("two").unwrap().is_some());
    manager.remove_app("one").unwrap();
}

#[test]
fn all_apps_are_listed_once() {
    let manager = registry();
    let mut ids: Vec<String> = manager.get_apps().unwrap().into_iter().map(|a| a.id).collect();
    ids.sort();
    assert_eq!(ids, vec!["one", "two"]);
    assert!(MemoryAppManager::default().get_apps().unwrap().is_empty());
}

#[test]
fn registered_app_is_listed_once() {
    let mut manager = registry();
    manager.register_app(app("one", "new", "s")).unwrap();
    let listed = manager.get_apps().unwrap();
    let keys: Vec<&str> =
        listed.iter().filter(|a| a.id == "one").map(|a| a.key.as_str()).collect();
    assert_eq!(keys, vec!["new"]);
    assert_eq!(listed.len(), 2);
    assert!(manager.validate_key("one").unwrap());
    assert_eq!(manager.get_app("two").unwrap().unwrap().key, "key-two");
}

#[test]
fn payload_signatures_are_validated() {
    let manager = registry();
    let expected = Token::new("key-one".to_string(), "s1".to_string()).sign("body".to_string());
    assert_eq!(manager.sign_payload("s1", "body").unwrap(), expected);
    assert!(manager.validate_signature("one", &expected, "body").unwrap());
    assert!(!manager.validate_signature("one", &expected, "bodx").unwrap());
    assert!(!manager.validate_signature("two", &expected, "body").unwrap());
    assert!(matches!(manager.validate_signature("no", "x", "y"), Err(Error::InvalidAppKey)));
}

#[test]
fn channel_names_are_validated() {
    let manager = registry();
    assert!(manager.validate_channel_name("one", "aZ09-_=@.").is_ok());
    assert!(manager.validate_channel_name("one", "").is_ok());
    match manager.validate_channel_name("one", "a b") {
        Err(Error::ChannelError(m)) => assert_eq!(m, "Channel name contains invalid characters"),
        _ => panic!("expected an error"),
    }
    match manager.validate_channel_name("two", "abcdef") {
        Err(Error::ChannelError(m)) => assert_eq!(m, "Channel name too long. Max length is 5"),
        _ => panic!("expected an error"),
    }
    let long = "a".repeat(201);
    match manager.validate_channel_name("one", &long) {
        Err(Error::ChannelError(m)) => assert_eq!(m, "Channel name too long. Max length is 200"),
        _ => panic!("expected an error"),
    }
    assert!(manager.validate_channel_name("one", &long[..200]).is_ok());
    assert!(matches!(manager.validate_channel_name("no", "x"), Err(Error::InvalidAppKey)));
}

#[test]
fn client_events_go_by_the_key() {
    let manager = registry();
    assert!(manager.can_handle_client_events("key-two").unwrap());
    assert!(!manager.can_handle_client_events("key-one").unwrap());
    assert!(!manager.can_handle_client_events("two").unwrap());
}

#[test]
fn user_auth_takes_key_and_signature() {
    let manager = registry();
    let id = SocketId("1.2".to_string());
    let signature = manager.sign_payload("s1", "1.2").unwrap();
    assert!(manager.validate_user_auth(&id, &format!("one:{}", signature)).unwrap());
    assert!(!manager.validate_user_auth(&id, &format!("one:{}x", signature)).unwrap());
    assert!(!manager.validate_user_auth(&id, "one:a:b").unwrap());
    assert!(matches!(manager.validate_user_auth(&id, "zero:x"), Err(Error::InvalidAppKey)));
    match manager.validate_user_auth(&id, "no separator") {
        Err(Error::AuthError(m)) => assert_eq!(m, "Invalid auth format"),
        _ => panic!("expected an error"),
    }
}

#[test]
fn sign_in_signature_is_checked() {
    let manager = registry();
    let validator = AuthValidator::new(&manager);
    let found = manager.get_app("one").unwrap().unwrap();
    let expected = Token::new("key-one".to_string(), "s1".to_string())
        .sign("1.2::user::{\"id\":\"7\"}".to_string());
    assert_eq!(validator.sing_in_token_for_user_data("1.2", "{\"id\":\"7\"}", &found), expected);
    assert!(validator.sign_in_token_is_valid("1.2", "{\"id\":\"7\"}", &expected, &found));
    assert!(!validator.sign_in_token_is_valid("1.3", "{\"id\":\"7\"}", &expected, &found));
    let id = SocketId("1.2".to_string());
    assert!(validator.validate_channel_auth(&id, "one", "{\"id\":\"7\"}", &expected).unwrap());
    assert!(!validator.validate_channel_auth(&id, "two", "{\"id\":\"7\"}", &expected).unwrap());
    assert!(matches!(
        validator.validate_channel_auth(&id, "none", "", ""),
        Err(Error::InvalidKey)
    ));
}

#[test]
fn auth_requests_hold_their_parts() {
    let request = ChannelAuth {
        channel_name: "private-x".to_string(),
        socket_id: "1.2".to_string(),
        user_data: None,
    };
    let result = AuthValidationResult { is_valid: true, signature: "s".to_string() };
    assert_eq!(request.channel_name, "private-x");
    assert!(request.user_data.is_none());
    assert!(result.is_valid);
}
