use sockudo::app::config::App;
use sockudo::channel::types::PresenceMemberInfo;
use sockudo::error::Error;
use sockudo::json::Json;
use sockudo::namespace::{ChannelData, Namespace};
use sockudo::protocol::{Frame, Outgoing};
use sockudo::table::Dict;
use sockudo::websocket::{ConnectionState, SocketId, WebSocket};

fn id(text: &str) -> SocketId {
    SocketId(text.to_string())
}

fn note(text: &str) -> Outgoing {
    Outgoing::Error { code: 1, message: text.to_string(), channel: None }
}

fn space(ids: &[&str]) -> Namespace {
    let mut ns = Namespace::new("app".to_string());
    for one in ids {
        assert!(ns.add_socket(id(one), Ok(Some(App::default()))));
    }
    ns
}

fn received(conn: &WebSocket) -> Vec<String> {
    conn.outbox
        .iter()
        .map(|frame| match frame {
            Frame::Text(Outgoing::Error { code, message, .. }) => format!("{}:{}", code, message),
            Frame::Close(code) => format!("close {}", code),
            _ => "other".to_string(),
        })
        .collect()
}

fn sign_in(ns: &mut Namespace, socket: &str, user: &str) {
    ns.get_connection_mut(&id(socket)).unwrap().state.user = Some(Json::parse(user).unwrap());
}

#[test]
fn connections_come_in_to_known_apps_only() {
    let mut ns = Namespace::new("app".to_string());
    assert!(!ns.add_socket(id("1"), Ok(None)));
    assert!(ns.get_connection(&id("1")).is_none());
    assert!(ns.add_socket(id("2"), Err(Error::InvalidKey)));
    assert!(ns.get_connection(&id("2")).unwrap().state.app.is_none());
    assert!(ns.add_socket(id("3"), Ok(Some(App::default()))));
    assert!(ns.get_connection(&id("3")).unwrap().state.app.is_some());
    assert_eq!(ns.app_id, "app");
}

#[test]
fn broadcast_reaches_exactly_the_others() {
    let mut ns = space(&["a", "b", "c"]);
    for one in ["a", "b"] {
        assert!(ns.add_channel_to_socket("room", &id(one)));
    }
    assert!(!ns.add_channel_to_socket("room", &id("a")));
    ns.broadcast("room", &note("hi"), Some(&id("a"))).unwrap();
    assert!(received(ns.get_connection(&id("a")).unwrap()).is_empty());
    assert_eq!(received(ns.get_connection(&id("b")).unwrap()), vec!["1:hi"]);
    assert!(received(ns.get_connection(&id("c")).unwrap()).is_empty());
    ns.broadcast("room", &note("all"), None).unwrap();
    assert_eq!(received(ns.get_connection(&id("a")).unwrap()), vec!["1:all"]);
    assert_eq!(received(ns.get_connection(&id("b")).unwrap()), vec!["1:hi", "1:all"]);
}

#[test]
fn refused_broadcast_reaches_no_stranger() {
    let mut ns = space(&["a", "b"]);
    ns.add_channel_to_socket("room", &id("a"));
    ns.get_connection_mut(&id("a")).unwrap().close();
    match ns.broadcast("room", &note("hi"), None) {
        Err(Error::ConnectionError(m)) => {
            assert_eq!(m, "Failed to send message: channel closed")
        }
        _ => panic!("expected an error"),
    }
    assert!(received(ns.get_connection(&id("a")).unwrap()).is_empty());
    assert!(received(ns.get_connection(&id("b")).unwrap()).is_empty());
    assert!(ns.broadcast("room", &note("hi"), Some(&id("a"))).is_ok());
}

#[test]
fn a_message_to_nobody_is_no_error() {
    let mut ns = space(&["a"]);
    assert!(ns.send_message(&id("x"), note("hi")).is_ok());
    assert!(ns.send_message(&id("a"), note("hi")).is_ok());
    let mut conn = ns.remove_connection(&id("a")).unwrap();
    assert_eq!(received(&conn), vec!["1:hi"]);
    assert_eq!(conn.drain().len(), 1);
    assert!(conn.drain().is_empty());
    assert!(ns.remove_connection(&id("a")).is_none());
}

#[test]
fn channel_lookups_make_the_channel() {
    let mut ns = space(&["a"]);
    assert!(!ns.is_in_channel("room", &id("a")));
    assert!(ns.channels.contains_key("room"));
    assert!(ns.get_channel("other").is_empty());
    assert!(ns.channels.contains_key("other"));
    ns.remove_channel("other");
    assert!(!ns.channels.contains_key("other"));
    assert!(ChannelData::new().presence_members.is_none());
}

#[test]
fn join_and_leave_restore() {
    let mut ns = space(&["a", "b"]);
    ns.add_channel_to_socket("room", &id("b"));
    ns.add_channel_to_socket("room", &id("a"));
    assert!(ns.is_in_channel("room", &id("a")));
    assert!(ns.remove_channel_from_socket("room", &id("a")));
    assert!(!ns.is_in_channel("room", &id("a")));
    assert!(ns.is_in_channel("room", &id("b")));
    assert!(ns.remove_channel_from_socket("room", &id("b")));
    assert!(!ns.channels.contains_key("room"));
    assert!(ns.remove_channel_from_socket("room", &id("b")));
}

#[test]
fn channel_sockets_exist() {
    let mut ns = space(&["a"]);
    ns.add_channel_to_socket("room", &id("a"));
    ns.add_channel_to_socket("room", &id("ghost"));
    let sockets = ns.get_channel_sockets("room");
    assert_eq!(sockets.items(), vec!["a"]);
    assert!(ns.get_channel_sockets("none").is_empty());
    assert!(ns.get_connection_from_channel("room", &id("a")).is_some());
    assert!(ns.get_connection_from_channel("room", &id("ghost")).is_none());
    assert!(ns.get_connection_from_channel("none", &id("a")).is_none());
}

#[test]
fn members_are_told_by_connections() {
    let mut ns = space(&["a", "b", "c"]);
    for one in ["a", "b", "c"] {
        ns.add_channel_to_socket("presence-x", &id(one));
    }
    for one in ["a", "b"] {
        let mut map: Dict<PresenceMemberInfo> = Dict::new();
        map.insert(
            "presence-x".to_string(),
            PresenceMemberInfo { user_id: "u".to_string(), user_info: None },
        );
        ns.get_connection_mut(&id(one)).unwrap().state.presence = Some(map);
    }
    let members = ns.get_channel_members("presence-x");
    assert_eq!(members.len(), 1);
    assert_eq!(members.get("u").unwrap().user_id, "u");
    let member = ns.get_presence_member("presence-x", &id("a")).unwrap();
    assert_eq!(member.user_id, "u");
    assert!(ns.get_presence_member("presence-y", &id("a")).is_none());
}

#[test]
fn user_is_noted_and_struck_out() {
    let mut ns = space(&["a", "b"]);
    sign_in(&mut ns, "a", "{\"id\":\"u\"}");
    sign_in(&mut ns, "b", "{\"id\":\"u\"}");
    assert!(ns.is_signed_in_properly(&id("a")));
    ns.add_user(&id("a"));
    ns.add_user(&id("b"));
    assert_eq!(ns.get_user_sockets("u").len(), 2);
    ns.remove_user(&id("a"));
    assert_eq!(ns.get_user_sockets("u").items(), vec!["b"]);
    ns.remove_user(&id("b"));
    assert!(!ns.users.contains_key("u"));
    assert!(ns.get_user_sockets("u").is_empty());
}

#[test]
fn a_user_needs_an_id() {
    let mut ns = space(&["a"]);
    ns.add_user(&id("a"));
    assert_eq!(ns.users.len(), 0);
    sign_in(&mut ns, "a", "{\"id\":7}");
    assert!(!ns.is_signed_in_properly(&id("a")));
    assert!(!ns.is_signed_in_properly(&id("ghost")));
}

#[test]
fn taken_out_leaves_no_trace() {
    let mut ns = space(&["a", "b"]);
    ns.add_channel_to_socket("both", &id("a"));
    ns.add_channel_to_socket("both", &id("b"));
    ns.add_channel_to_socket("alone", &id("a"));
    sign_in(&mut ns, "a", "{\"id\":\"u\"}");
    ns.add_user(&id("a"));
    let gone = ns.cleanup_connection(&id("a")).unwrap();
    assert_eq!(
        received(&gone),
        vec!["4009:You got disconnected by the application", "close 4009"]
    );
    assert!(ns.get_connection(&id("a")).is_none());
    assert!(ns.get_connection(&id("b")).is_some());
    assert_eq!(ns.get_channel_sockets("both").items(), vec!["b"]);
    assert!(!ns.channels.contains_key("alone"));
    assert!(!ns.users.contains_key("u"));
    assert!(ns.cleanup_connection(&id("a")).is_none());
}

#[test]
fn all_connections_of_a_user_are_terminated() {
    let mut ns = space(&["a", "b", "c"]);
    for (socket, user) in [("a", "u"), ("b", "u"), ("c", "v")] {
        sign_in(&mut ns, socket, &format!("{{\"id\":\"{}\"}}", user));
        ns.add_user(&id(socket));
    }
    assert!(ns.user_sockets_exist("u"));
    let gone = ns.terminate_user_connections("u");
    assert_eq!(gone.len(), 2);
    assert!(gone.iter().all(|conn| received(conn).last().unwrap() == "close 4009"));
    assert!(ns.get_connection(&id("c")).is_some());
    assert!(!ns.users.contains_key("u"));
    assert!(ns.terminate_user_connections("u").is_empty());
}

#[test]
fn a_missing_connection_of_a_user_is_seen() {
    let mut ns = space(&["a"]);
    sign_in(&mut ns, "a", "{\"id\":\"u\"}");
    ns.add_user(&id("a"));
    ns.remove_connection(&id("a"));
    assert!(!ns.user_sockets_exist("u"));
    assert!(ns.user_sockets_exist("nobody"));
}

#[test]
fn connection_state_starts_blank() {
    let mut state = ConnectionState::new(id("1.2"));
    assert_eq!(state.get_app_key(), "");
    assert_eq!(state.last_ping, 0);
    state.update_ping(17);
    assert_eq!(state.last_ping, 17);
    let mut app = App::default();
    app.key = "k".to_string();
    state.app = Some(app);
    assert_eq!(state.get_app_key(), "k");
}
