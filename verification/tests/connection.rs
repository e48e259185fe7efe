use sockudo::app::config::App;
use sockudo::app::manager::AppManager;
use sockudo::app::memory_app_manager::MemoryAppManager;
use sockudo::connection::departure::Departed;
use sockudo::connection::handler::ConnectionHandler;
use sockudo::connection::manager::ConnectionManager;
use sockudo::connection::redis_manager::{BroadcastMessage, RedisConnectionManager};
use sockudo::connection::session::{frame_action, message_text, FrameAction, Handled, OpCode};
use sockudo::error::Error;
use sockudo::json::Json;
use sockudo::protocol::{Frame, MessageData, Outgoing, PusherApiMessage, PusherMessage};
use sockudo::table::Dict;
use sockudo::token::Token;
use sockudo::websocket::SocketId;

fn id(text: &str) -> SocketId {
    SocketId(text.to_string())
}

fn server() -> ConnectionHandler {
    let mut apps = MemoryAppManager::new();
    let mut app = App::default();
    app.id = "app".to_string();
    app.key = "key".to_string();
    app.secret = "secret".to_string();
    app.enable_client_messages = true;
    apps.register_app(app).unwrap();
    let mut quiet = App::default();
    quiet.id = "quiet".to_string();
    quiet.key = "quiet-key".to_string();
    apps.register_app(quiet).unwrap();
    ConnectionHandler::new(apps, RedisConnectionManager::new("node".to_string()))
}

fn connected(ids: &[&str]) -> ConnectionHandler {
    let mut server = server();
    for one in ids {
        assert!(server.open_connection("app", &id(one)).is_none());
        drain(&mut server, one);
    }
    server
}

fn render(frame: &Frame) -> String {
    match frame {
        Frame::Close(code) => format!("close {}", code),
        Frame::Text(Outgoing::Message(m)) => format!(
            "{} {} {}",
            m.event.clone().unwrap_or_default(),
            m.channel.clone().unwrap_or_default(),
            match &m.data {
                Some(MessageData::Json(v)) => v.text(),
                Some(_) => "?".to_string(),
                None => "-".to_string(),
            }
        ),
        Frame::Text(Outgoing::ConnectionEstablished { socket_id }) => {
            format!("established {}", socket_id)
        }
        Frame::Text(Outgoing::SubscriptionSucceeded { channel, presence }) => match presence {
            Some(p) => format!("subscribed {} {:?} {}", channel, p.ids, p.count),
            None => format!("subscribed {}", channel),
        },
        Frame::Text(Outgoing::MemberAdded { channel, user_id, .. }) => {
            format!("added {} {}", channel, user_id)
        }
        Frame::Text(Outgoing::MemberRemoved { channel, user_id }) => {
            format!("removed {} {}", channel, user_id)
        }
        Frame::Text(Outgoing::Error { code, message, .. }) => format!("{} {}", code, message),
        Frame::Text(Outgoing::Failure { error, .. }) => format!("failure {:?}", error),
    }
}

fn drain(server: &mut ConnectionHandler, socket: &str) -> Vec<String> {
    match server.connection_manager.get_connection(&id(socket), "app") {
        Some(conn) => conn.drain().iter().map(|frame| render(frame)).collect(),
        None => vec!["no connection".to_string()],
    }
}

fn event(name: &str, channel: Option<&str>, data: Option<MessageData>) -> PusherMessage {
    PusherMessage {
        channel: channel.map(|s| s.to_string()),
        name: None,
        event: Some(name.to_string()),
        data,
    }
}

fn subscription(channel: &str, who: Option<&str>, auth: Option<&str>) -> PusherMessage {
    let mut extra: Dict<Json> = Dict::new();
    if let Some(auth) = auth {
        extra.insert("auth".to_string(), Json::string(auth.to_string()));
    }
    event(
        "pusher:subscribe",
        None,
        Some(MessageData::Structured {
            channel_data: who.map(|s| s.to_string()),
            channel: Some(channel.to_string()),
            user_data: None,
            extra,
        }),
    )
}

fn auth(text: &str) -> String {
    let token = Token::new("key".to_string(), "secret".to_string());
    format!("key:{}", token.sign(text.to_string()))
}

fn handle(server: &mut ConnectionHandler, socket: &str, message: PusherMessage) -> Handled {
    server.receive_message(&id(socket), "app", "key", message, Json::null()).unwrap()
}

fn subscribe(server: &mut ConnectionHandler, socket: &str, channel: &str) {
    let given = auth(&format!("{}:{}", socket, channel));
    assert!(matches!(
        handle(server, socket, subscription(channel, None, Some(&given))),
        Handled::Done
    ));
    assert_eq!(drain(server, socket), vec![format!("subscribed {}", channel)]);
}

fn join_presence(server: &mut ConnectionHandler, socket: &str, user: &str) -> Vec<String> {
    let who = format!("{{\"user_id\":\"{}\"}}", user);
    let given = auth(&format!("{}:presence-x:{}", socket, who));
    match handle(server, socket, subscription("presence-x", Some(&who), Some(&given))) {
        Handled::Ask(publication, left) => {
            assert_eq!(publication.node_id, "node");
            assert_eq!(publication.channel, "presence-x");
            assert_eq!(publication.socket_id.0, socket);
            assert!(drain(server, socket).is_empty());
            let done = server.finish_message("app", &id(socket), left, Ok(()));
            assert!(matches!(done, Handled::Done));
            drain(server, socket)
        }
        _ => panic!("expected a publication"),
    }
}

#[test]
fn frames_have_their_actions() {
    assert_eq!(frame_action(OpCode::Close), FrameAction::Disconnect);
    assert_eq!(frame_action(OpCode::Text), FrameAction::Handle);
    assert_eq!(frame_action(OpCode::Binary), FrameAction::Handle);
    assert_eq!(frame_action(OpCode::Ping), FrameAction::NotePing);
    assert_eq!(frame_action(OpCode::Pong), FrameAction::Ignore);
    assert_eq!(frame_action(OpCode::Continuation), FrameAction::Ignore);
}

#[test]
fn messages_are_utf8() {
    assert_eq!(message_text("grün".as_bytes().to_vec()).unwrap(), "grün");
    match message_text(vec![0xff]) {
        Err(Error::InvalidMessageFormat(m)) => assert!(m.starts_with("Invalid UTF-8: ")),
        _ => panic!("expected an error"),
    }
}

#[test]
fn new_connection_is_established() {
    let mut server = server();
    assert!(server.open_connection("app", &id("1")).is_none());
    assert_eq!(drain(&mut server, "1"), vec!["established 1"]);
    let before = server.open_connection("app", &id("1")).unwrap();
    let written: Vec<String> = before.outbox.iter().map(render).collect();
    assert_eq!(written, vec!["4009 You got disconnected by the application", "close 4009"]);
    assert_eq!(drain(&mut server, "1"), vec!["established 1"]);
    assert!(server.open_connection("none", &id("1")).is_none());
    assert!(server.connection_manager.find_connection("none", &id("1")).is_none());
}

#[test]
fn ping_is_answered_with_pong() {
    let mut server = connected(&["1"]);
    assert!(matches!(handle(&mut server, "1", event("pusher:ping", None, None)), Handled::Done));
    assert_eq!(drain(&mut server, "1"), vec!["pusher:pong  -"]);
    assert!(server.note_ping("app", &id("1"), 99));
    let found = server.connection_manager.find_connection("app", &id("1")).unwrap();
    assert_eq!(found.state.last_ping, 99);
    assert!(!server.note_ping("app", &id("2"), 99));
}

#[test]
fn unknown_event_is_ignored() {
    let mut server = connected(&["1"]);
    assert!(matches!(handle(&mut server, "1", event("hello", None, None)), Handled::Done));
    assert!(drain(&mut server, "1").is_empty());
    let nameless = PusherMessage { channel: None, name: None, event: None, data: None };
    match handle(&mut server, "1", nameless) {
        Handled::Rejected(Error::InvalidEventName(m)) => assert_eq!(m, "Event name is required"),
        _ => panic!("expected a rejection"),
    }
}

#[test]
fn public_subscription_is_accepted() {
    let mut server = connected(&["1"]);
    let message = subscription("news", None, None);
    assert!(matches!(handle(&mut server, "1", message), Handled::Done));
    assert_eq!(drain(&mut server, "1"), vec!["subscribed news"]);
    assert!(server.connection_manager.is_subscribed("app", "news", &id("1")));
    let state = &server.connection_manager.find_connection("app", &id("1")).unwrap().state;
    assert!(state.subscribed_channels.contains("news"));
}

#[test]
fn signed_subscription_is_accepted() {
    let mut server = connected(&["1"]);
    subscribe(&mut server, "1", "private-x");
    assert!(server.connection_manager.is_subscribed("app", "private-x", &id("1")));
}

#[test]
fn unsigned_subscription_is_refused() {
    for given in [None, Some("key:00")] {
        let mut server = connected(&["1"]);
        match handle(&mut server, "1", subscription("private-x", None, given)) {
            Handled::Failed { error: Error::ClientEventError(m), gone } => {
                assert_eq!(m, "Failed to handle event: pusher:subscribe");
                let frames: Vec<String> = gone.unwrap().outbox.iter().map(render).collect();
                let why = match given {
                    None => "failure AuthError(\"Authentication required\")",
                    Some(_) => "failure ChannelError(\"Failed to subscribe\")",
                };
                assert_eq!(
                    frames,
                    vec![why, "4009 You got disconnected by the application", "close 4009"]
                );
            }
            _ => panic!("expected a failure"),
        }
        assert!(server.connection_manager.find_connection("app", &id("1")).is_none());
        assert!(!server.connection_manager.is_subscribed("app", "private-x", &id("1")));
    }
}

#[test]
fn subscription_to_an_unknown_app_fails() {
    let mut server = connected(&["1"]);
    match server.handle_subscribe(&id("1"), "none", &subscription("news", None, None)) {
        Err(Error::InvalidAppKey) => {}
        _ => panic!("expected an error"),
    }
}

#[test]
fn presence_subscription_is_announced() {
    let mut server = connected(&["1", "2"]);
    assert_eq!(join_presence(&mut server, "1", "u"), vec!["subscribed presence-x [\"u\"] 1"]);
    let told = join_presence(&mut server, "2", "v");
    assert_eq!(told.len(), 1);
    assert!(told[0].ends_with(" 2"));
    assert!(told[0].contains("\"u\"") && told[0].contains("\"v\""));
    assert_eq!(drain(&mut server, "1"), vec!["added presence-x v"]);
}

#[test]
fn presence_subscription_that_is_not_published_fails() {
    let mut server = connected(&["1"]);
    let who = "{\"user_id\":\"u\"}";
    let given = auth("1:presence-x:{\"user_id\":\"u\"}");
    match handle(&mut server, "1", subscription("presence-x", Some(who), Some(&given))) {
        Handled::Ask(_, left) => {
            match server.finish_message("app", &id("1"), left, Err("down".to_string())) {
                Handled::Failed { gone, .. } => {
                    let frames: Vec<String> = gone.unwrap().outbox.iter().map(render).collect();
                    assert_eq!(
                        frames[0],
                        "failure ConnectionError(\"Failed to publish: down\")"
                    );
                }
                _ => panic!("expected a failure"),
            }
        }
        _ => panic!("expected a publication"),
    }
}

#[test]
fn member_that_leaves_is_announced() {
    let mut server = connected(&["1", "2"]);
    join_presence(&mut server, "1", "u");
    join_presence(&mut server, "2", "v");
    drain(&mut server, "1");
    let leave = event("pusher:unsubscribe", Some("presence-x"), None);
    match handle(&mut server, "2", leave) {
        Handled::Tell(publication) => assert_eq!(publication.channel, "presence-x"),
        _ => panic!("expected a publication"),
    }
    assert_eq!(drain(&mut server, "1"), vec!["removed presence-x v"]);
    assert!(drain(&mut server, "2").is_empty());
    assert!(!server.connection_manager.is_subscribed("app", "presence-x", &id("2")));
    let again = event("pusher:unsubscribe", Some("presence-x"), None);
    assert!(matches!(handle(&mut server, "2", again), Handled::Done));
}

#[test]
fn messages_that_cannot_be_handled_change_nothing() {
    let mut server = connected(&["1"]);
    let nowhere = event("pusher:unsubscribe", None, None);
    assert!(server.receive_message(&id("1"), "app", "key", nowhere, Json::null()).is_none());
    let absent = event("pusher:unsubscribe", Some("presence-x"), None);
    assert!(server.receive_message(&id("1"), "app", "key", absent, Json::null()).is_none());
    let text = event("pusher:subscribe", None, Some(MessageData::String("news".to_string())));
    assert!(!server.can_handle("app", &id("1"), &text));
    let ghost = event("client-x", Some("private-x"), None);
    assert!(!server.can_handle("app", &id("9"), &ghost));
    assert!(drain(&mut server, "1").is_empty());
}

#[test]
fn user_signs_in() {
    let mut server = connected(&["1"]);
    let mut extra: Dict<Json> = Dict::new();
    let user = "{\"id\":\"7\"}";
    extra.insert("user_data".to_string(), Json::string(user.to_string()));
    let signature = Token::new("key".to_string(), "secret".to_string())
        .sign(format!("1::user::{}", user));
    extra.insert("auth".to_string(), Json::string(signature));
    let data =
        MessageData::Structured { channel_data: None, channel: None, user_data: None, extra };
    let message = event("pusher:signin", None, Some(data));
    server.handle_signin(&id("1"), &message, "app", "app").unwrap();
    assert_eq!(drain(&mut server, "1"), vec!["pusher:signin_success  {\"id\":\"7\"}"]);
    let state = &server.connection_manager.find_connection("app", &id("1")).unwrap().state;
    assert_eq!(state.user.as_ref().unwrap().get_str("id"), Some("7".to_string()));
    match server.handle_signin(&id("9"), &message, "app", "app") {
        Err(Error::AuthError(m)) => assert_eq!(m, "Connection not authorized."),
        _ => panic!("expected an error"),
    }
    assert!(matches!(
        server.handle_signin(&id("1"), &message, "app", "none"),
        Err(Error::InvalidKey)
    ));
}

#[test]
fn sign_in_needs_its_fields() {
    let mut server = connected(&["1"]);
    let mut error = |data: Option<MessageData>| {
        match server.handle_signin(&id("1"), &event("pusher:signin", None, data), "app", "app") {
            Err(Error::AuthError(m)) => m,
            _ => panic!("expected an error"),
        }
    };
    let json = |text: &str| Some(MessageData::Json(Json::parse(text).unwrap()));
    assert_eq!(error(None), "Missing data in signin message");
    assert_eq!(error(json("{}")), "Missing user_data field");
    assert_eq!(error(json("{\"user_data\":\"{}\"}")), "Missing auth field");
    assert!(error(json("{\"user_data\":\"{\",\"auth\":\"x\"}"))
        .starts_with("Invalid user data: "));
    assert_eq!(
        error(json("{\"user_data\":\"{}\",\"auth\":\"x\"}")),
        "Connection not authorized."
    );
}

#[test]
fn client_event_is_not_echoed() {
    let mut server = connected(&["1", "2"]);
    subscribe(&mut server, "1", "private-x");
    subscribe(&mut server, "2", "private-x");
    let data = MessageData::String("hi".to_string());
    match handle(&mut server, "1", event("client-note", Some("private-x"), Some(data))) {
        Handled::Ask(publication, left) => {
            assert_eq!(publication.channel, "private-x");
            assert!(left.joined.is_none());
            let done = server.finish_message("app", &id("1"), left, Ok(()));
            assert!(matches!(done, Handled::Done));
        }
        _ => panic!("expected a publication"),
    }
    assert!(drain(&mut server, "1").is_empty());
    assert_eq!(drain(&mut server, "2"), vec!["client-note private-x \"hi\""]);
}

#[test]
fn client_events_are_refused() {
    let mut server = connected(&["1"]);
    server.open_connection("quiet", &id("1"));
    let mut error = |app: &str, name: &str, channel: Option<&str>| {
        match server.handle_client_event(app, &id("1"), name, channel, Json::null()) {
            Err(Error::ClientEventError(m)) => m,
            Err(Error::InvalidEventName(m)) => format!("name: {}", m),
            _ => panic!("expected an error"),
        }
    };
    assert_eq!(error("app", "client-x", None), "Channel name is required");
    assert_eq!(
        error("app", "x", Some("private-x")),
        "name: Client events must start with 'client-'"
    );
    assert_eq!(
        error("app", "client-x", Some("news")),
        "Client events can only be sent to private or presence channels"
    );
    assert_eq!(
        error("app", "client-x", Some("private-encrypted")),
        "Client events can only be sent to private or presence channels"
    );
    assert_eq!(
        error("app", "client-x", Some("private-x")),
        "Client 1 is not subscribed to channel private-x"
    );
    assert_eq!(
        error("quiet", "client-x", Some("private-x")),
        "Client events are not enabled for this app"
    );
}

#[test]
fn failed_message_ends_the_connection() {
    let mut server = connected(&["1"]);
    let message = event("client-x", Some("news"), None);
    match handle(&mut server, "1", message) {
        Handled::Failed { error: Error::ClientEventError(m), gone } => {
            assert_eq!(m, "Failed to handle event: client-x");
            assert_eq!(gone.unwrap().outbox.len(), 3);
        }
        _ => panic!("expected a failure"),
    }
    assert_eq!(drain(&mut server, "1"), vec!["no connection"]);
}

#[test]
fn departed_connection_is_on_no_channel() {
    let mut server = connected(&["1", "2"]);
    join_presence(&mut server, "1", "u");
    join_presence(&mut server, "2", "v");
    subscribe(&mut server, "2", "private-x");
    drain(&mut server, "1");
    let mut leaving = server.handle_disconnect("app", &id("2")).unwrap();
    assert_eq!(leaving.channels.len(), 2);
    let mut told: usize = 0;
    let mut left: usize = 0;
    loop {
        match server.depart(&mut leaving).unwrap() {
            Departed::Gone(conn) => {
                assert!(conn.is_some());
                break;
            }
            Departed::Left => left += 1,
            Departed::Tell(publication) => {
                assert_eq!(publication.channel, "presence-x");
                told += 1;
            }
        }
    }
    assert_eq!((told, left), (1, 1));
    assert_eq!(drain(&mut server, "1"), vec!["removed presence-x v"]);
    assert!(!server.connection_manager.is_subscribed("app", "presence-x", &id("2")));
    assert!(!server.connection_manager.is_subscribed("app", "private-x", &id("2")));
    assert!(server.connection_manager.is_subscribed("app", "presence-x", &id("1")));
    assert!(server.handle_disconnect("app", &id("2")).is_none());
}

#[test]
fn user_with_another_connection_is_still_there() {
    let mut server = connected(&["1", "2", "3"]);
    join_presence(&mut server, "1", "u");
    join_presence(&mut server, "2", "v");
    join_presence(&mut server, "3", "v");
    drain(&mut server, "1");
    let mut leaving = server.handle_disconnect("app", &id("2")).unwrap();
    assert!(matches!(server.depart(&mut leaving), Ok(Departed::Left)));
    assert!(drain(&mut server, "1").is_empty());
}

#[test]
fn api_message_reaches_the_channel() {
    let mut server = connected(&["1", "2"]);
    subscribe(&mut server, "1", "private-x");
    subscribe(&mut server, "2", "private-x");
    let message = PusherApiMessage {
        name: Some("news".to_string()),
        data: Some(Json::parse("{\"a\":1}").unwrap()),
        channels: None,
        channel: None,
        socket_id: None,
    };
    let published = server.send_message("app", Some(&id("1")), &message, "private-x").unwrap();
    assert_eq!(published.socket_id.0, "1");
    assert!(drain(&mut server, "1").is_empty());
    assert_eq!(drain(&mut server, "2"), vec!["news private-x {\"a\":1}"]);
    let all = server.send_message("app", None, &message, "private-x").unwrap();
    assert_eq!(all.socket_id.0, "");
    assert_eq!(drain(&mut server, "1"), vec!["news private-x {\"a\":1}"]);
}

#[test]
fn applications_are_separate() {
    let mut server = connected(&["1"]);
    server.open_connection("quiet", &id("1"));
    subscribe(&mut server, "1", "private-x");
    assert!(!server.connection_manager.is_subscribed("quiet", "private-x", &id("1")));
    server.connection_manager.cleanup_connection("app", &id("1"));
    assert!(server.connection_manager.find_connection("quiet", &id("1")).is_some());
}

#[test]
fn channel_info_counts() {
    let server = server();
    assert!(!server.channel(0).occupied);
    let info = server.channel(3);
    assert!(info.occupied);
    assert_eq!(info.subscription_count, 3);
}

#[test]
fn own_broadcasts_are_not_received() {
    let mut manager = RedisConnectionManager::new("node".to_string());
    manager.init();
    assert_eq!(manager.redis_channel(), "pusher:broadcast");
    for socket in ["1", "2", "3"] {
        manager.add_connection(id(socket), "app", Ok(Some(App::default())));
    }
    manager.add_socket_to_channel("app", "room", &id("1"));
    manager.add_socket_to_channel("app", "room", &id("2"));
    let message = |node: &str, app: &str, except: &str| BroadcastMessage {
        node_id: node.to_string(),
        app_id: app.to_string(),
        channel: "room".to_string(),
        socket_id: id(except),
        message: "{}".to_string(),
    };
    let note = || Outgoing::MemberRemoved { channel: "c".to_string(), user_id: "u".to_string() };
    let waiting = |manager: &RedisConnectionManager| -> Vec<usize> {
        let count = |s: &str| manager.find_connection("app", &id(s)).unwrap().outbox.len();
        vec![count("1"), count("2"), count("3")]
    };
    assert!(!manager.is_foreign(&message("node", "app", "1")));
    manager.receive(&message("node", "app", "1"), Some(note()));
    manager.receive(&message("other", "none", "1"), Some(note()));
    manager.receive(&message("other", "app", "1"), None);
    assert_eq!(waiting(&manager), vec![0, 0, 0]);
    manager.receive(&message("other", "app", "1"), Some(note()));
    assert_eq!(waiting(&manager), vec![0, 1, 0]);
    manager.receive(&message("other", "app", ""), Some(note()));
    assert_eq!(waiting(&manager), vec![1, 2, 0]);
}

#[test]
fn channels_of_all_applications_are_asked() {
    let mut manager = RedisConnectionManager::new("node".to_string());
    for (app, socket) in [("a", "1"), ("b", "2"), ("b", "3"), ("b", "1")] {
        manager.add_connection(id(socket), app, Ok(Some(App::default())));
        manager.add_socket_to_channel(app, "room", &id(socket));
    }
    let mut found: Vec<String> =
        manager.get_channel_sockets("room").into_iter().map(|s| s.0).collect();
    found.sort();
    assert_eq!(found, vec!["1", "2", "3"]);
    assert_eq!(manager.get_channel("b", "room").len(), 3);
    assert!(manager.remove_socket_from_channel("b", "room", &id("2")));
    assert!(!manager.is_in_channel("b", "room", &id("2")));
    manager.remove_channel("b", "room");
    assert!(manager.get_channel("b", "room").is_empty());
    assert!(manager.remove_connection(&id("2"), "b").is_some());
}

#[test]
fn connection_that_left_is_off_the_channel() {
    let mut server = connected(&["1", "2"]);
    subscribe(&mut server, "1", "private-x");
    subscribe(&mut server, "2", "private-x");
    let leave = event("pusher:unsubscribe", Some("private-x"), None);
    assert!(matches!(handle(&mut server, "1", leave), Handled::Done));
    assert!(!server.connection_manager.is_subscribed("app", "private-x", &id("1")));
    assert!(server.connection_manager.is_subscribed("app", "private-x", &id("2")));
}

#[test]
fn connections_stand_under_their_ids() {
    let mut server = connected(&["1", "2"]);
    join_presence(&mut server, "1", "u");
    join_presence(&mut server, "2", "v");
    subscribe(&mut server, "2", "private-x");
    for one in ["1", "2"] {
        let conn = server.connection_manager.find_connection("app", &id(one)).unwrap();
        assert_eq!(conn.state.socket_id.0, one);
    }
}
