use sockudo::adapter::horizontal_adapter::{
    HorizontalAdapter, RequestBody, RequestType, ResponseBody, Waiting,
};
use sockudo::adapter::local_adapter::LocalAdapter;
use sockudo::adapter::redis_adapter::{BroadcastMessage, RedisAdapter};
use sockudo::app::config::App;
use sockudo::channel::types::PresenceMemberInfo;
use sockudo::error::Error;
use sockudo::json::Json;
use sockudo::protocol::Outgoing;
use sockudo::table::Dict;
use sockudo::websocket::SocketId;

fn id(text: &str) -> SocketId {
    SocketId(text.to_string())
}

fn note() -> Outgoing {
    Outgoing::MemberRemoved { channel: "c".to_string(), user_id: "u".to_string() }
}

fn local(ids: &[&str]) -> LocalAdapter {
    let mut adapter = LocalAdapter::new();
    for one in ids {
        assert!(adapter.add_socket(id(one), "app", Ok(Some(App::default()))));
        assert!(adapter.add_to_channel("app", "room", &id(one)));
    }
    adapter
}

fn sign_in(adapter: &mut LocalAdapter, socket: &str, user: &str) {
    let conn = adapter.get_connection(&id(socket), "app").unwrap();
    conn.state.user = Some(Json::parse(&format!("{{\"id\":\"{}\"}}", user)).unwrap());
    adapter.add_user("app", &id(socket));
}

fn request(kind: RequestType, channel: Option<&str>, socket: Option<&str>, user: Option<&str>)
    -> RequestBody {
    RequestBody {
        request_id: "r".to_string(),
        node_id: "elsewhere".to_string(),
        app_id: "app".to_string(),
        request_type: kind,
        channel: channel.map(|s| s.to_string()),
        socket_id: socket.map(|s| s.to_string()),
        user_id: user.map(|s| s.to_string()),
    }
}

fn response(request_id: &str, count: usize, user: &str, exists: bool) -> ResponseBody {
    let mut members: Dict<PresenceMemberInfo> = Dict::new();
    members.insert(
        user.to_string(),
        PresenceMemberInfo { user_id: user.to_string(), user_info: None },
    );
    ResponseBody {
        request_id: request_id.to_string(),
        node_id: "elsewhere".to_string(),
        app_id: "app".to_string(),
        members,
        socket_ids: vec![format!("s-{}", user)],
        sockets_count: count,
        exists,
    }
}

#[test]
fn local_adapter_keeps_namespaces() {
    let mut adapter = local(&["a", "b"]);
    assert!(adapter.find_namespace("other").is_none());
    assert_eq!(adapter.get_channel_socket_count("app", "room"), 2);
    assert_eq!(adapter.get_channel_sockets("app", "room").len(), 2);
    assert!(adapter.is_in_channel("app", "room", &id("a")));
    assert!(!adapter.is_in_channel("other", "room", &id("a")));
    adapter.send("room", &note(), Some(&id("a")), "app").unwrap();
    assert!(adapter.get_connection(&id("a"), "app").unwrap().outbox.is_empty());
    assert_eq!(adapter.get_connection(&id("b"), "app").unwrap().outbox.len(), 1);
    assert!(adapter.remove_from_channel("app", "room", &id("a")));
    assert_eq!(adapter.get_channel_socket_count("app", "room"), 1);
}

#[test]
fn redis_adapter_hands_messages_out_twice() {
    let mut adapter = RedisAdapter::new("sockudo", "me".to_string());
    assert_eq!(adapter.topic(), "sockudo#redis-adapter");
    adapter.add_socket(id("a"), "app", Ok(Some(App::default())));
    adapter.add_to_channel("app", "room", &id("a"));
    let told = adapter.send("room", note(), None, "app").unwrap();
    assert_eq!(told.node_id, "me");
    assert_eq!(told.app_id, "app");
    assert_eq!(told.socket_id.0, "");
    assert_eq!(adapter.get_connection(&id("a"), "app").unwrap().outbox.len(), 2);
}

#[test]
fn redis_adapter_ignores_its_own_messages() {
    let mut adapter = RedisAdapter::new("sockudo", "me".to_string());
    adapter.add_socket(id("a"), "app", Ok(Some(App::default())));
    adapter.add_to_channel("app", "room", &id("a"));
    let message = |node: &str| BroadcastMessage {
        node_id: node.to_string(),
        channel: "room".to_string(),
        socket_id: id(""),
        message: "{}".to_string(),
        app_id: "app".to_string(),
    };
    assert!(adapter.handle_redis_message(&message("me"), note()).is_none());
    assert!(adapter.get_connection(&id("a"), "app").unwrap().outbox.is_empty());
    assert!(adapter.handle_redis_message(&message("you"), note()).unwrap().is_ok());
    assert_eq!(adapter.get_connection(&id("a"), "app").unwrap().outbox.len(), 2);
    adapter.get_connection(&id("a"), "app").unwrap().close();
    assert!(adapter.handle_redis_message(&message("you"), note()).unwrap().is_err());
}

#[test]
fn redis_adapter_notes_users() {
    let mut adapter = RedisAdapter::new("sockudo", "me".to_string());
    adapter.add_socket(id("a"), "app", Ok(Some(App::default())));
    assert!(!adapter.try_add_user("app", &id("ghost")));
    adapter.get_connection(&id("a"), "app").unwrap().state.user =
        Some(Json::parse("{\"id\":\"u\"}").unwrap());
    assert!(adapter.try_add_user("app", &id("a")));
    assert!(adapter.user_sockets_exist("app", "u"));
    assert_eq!(adapter.get_user_sockets("u", "app").len(), 1);
    assert!(adapter.try_remove_user("app", &id("a")));
    assert!(adapter.get_user_sockets("u", "app").is_empty());
    assert!(adapter.try_add_user("app", &id("a")));
    assert_eq!(adapter.terminate_connection("app", "u").len(), 1);
}

#[test]
fn questions_of_other_servers_are_answered() {
    let mut adapter = HorizontalAdapter::new();
    adapter.local_adapter = local(&["a", "b"]);
    let mut ask = |kind: RequestType, channel: Option<&str>, socket: Option<&str>| {
        adapter.process_request(&request(kind, channel, socket, None)).unwrap().0
    };
    let answer = ask(RequestType::ChannelSocketsCount, Some("room"), None);
    assert_eq!(answer.sockets_count, 2);
    assert_eq!(answer.request_id, "r");
    let mut ids = ask(RequestType::ChannelSockets, Some("room"), None).socket_ids;
    ids.sort();
    assert_eq!(ids, vec!["a", "b"]);
    assert!(ask(RequestType::SocketExistsInChannel, Some("room"), Some("a")).exists);
    assert!(!ask(RequestType::SocketExistsInChannel, Some("room"), Some("z")).exists);
    assert!(!ask(RequestType::SocketExistsInChannel, Some("room"), None).exists);
    assert_eq!(ask(RequestType::ChannelMembers, Some("room"), None).members.len(), 0);
    assert_eq!(ask(RequestType::ChannelSocketsCount, None, None).sockets_count, 0);
}

#[test]
fn connections_of_a_user_are_terminated_on_request() {
    let mut adapter = HorizontalAdapter::new();
    adapter.local_adapter = local(&["a", "b"]);
    sign_in(&mut adapter.local_adapter, "a", "u");
    let asked = request(RequestType::TerminateUserConnections, None, None, Some("u"));
    let (answer, gone) = adapter.process_request(&asked).unwrap();
    assert!(answer.exists);
    assert_eq!(gone.len(), 1);
    assert!(adapter.local_adapter.get_connection(&id("a"), "app").is_none());
    assert!(adapter.local_adapter.get_connection(&id("b"), "app").is_some());
}

#[test]
fn own_questions_are_not_answered() {
    let mut adapter = HorizontalAdapter::new();
    let own = adapter.send_request("app", RequestType::ChannelMembers, Some("c"), None, None, 0);
    match adapter.process_request(&own) {
        Err(Error::Other(m)) => assert_eq!(m, "Ignoring own request"),
        _ => panic!("expected an error"),
    }
}

#[test]
fn combined_answers_add_up() {
    let mut adapter = HorizontalAdapter::new();
    assert_eq!(adapter.requests_timeout, 5000);
    let asked =
        adapter.send_request("app", RequestType::ChannelMembers, Some("c"), None, None, 10);
    let key = asked.request_id.clone();
    assert_eq!(adapter.poll_request(&key, 0, 3), Waiting::On(10));
    assert_eq!(adapter.poll_request(&key, 0, 1), Waiting::Over);
    adapter.process_response(response(&key, 2, "u", false));
    adapter.process_response(response("unknown", 50, "x", true));
    adapter.process_response(response(&key, 3, "v", true));
    assert_eq!(adapter.poll_request(&key, 0, 3), Waiting::Over);
    assert_eq!(adapter.poll_request(&key, 5000, 9), Waiting::Over);
    assert!(adapter.counts_fit(&key));
    let total = adapter.finish_request(&key, "app");
    assert_eq!(total.sockets_count, 5);
    assert!(total.exists);
    assert_eq!(total.socket_ids, vec!["s-u", "s-v"]);
    assert_eq!(total.members.len(), 2);
    assert_eq!(adapter.poll_request(&key, 0, 3), Waiting::Lost);
}

#[test]
fn answers_go_to_their_question() {
    let mut adapter = HorizontalAdapter::new();
    let one = adapter.send_request("app", RequestType::ChannelSocketsCount, None, None, None, 0);
    let two = adapter.send_request("app", RequestType::ChannelSocketsCount, None, None, None, 0);
    adapter.process_response(response(&one.request_id, usize::MAX, "u", false));
    assert!(adapter.counts_fit(&one.request_id));
    adapter.process_response(response(&one.request_id, 1, "u", false));
    assert!(!adapter.counts_fit(&one.request_id));
    assert_eq!(adapter.finish_request(&two.request_id, "app").sockets_count, 0);
}

#[test]
fn stale_questions_are_given_up() {
    let mut adapter = HorizontalAdapter::new();
    let old = adapter.send_request("app", RequestType::ChannelMembers, None, None, None, 1000);
    let new = adapter.send_request("app", RequestType::ChannelMembers, None, None, None, 2000);
    adapter.start_request_cleanup(6000);
    assert_eq!(adapter.pending_requests.len(), 2);
    adapter.start_request_cleanup(6001);
    assert!(!adapter.pending_requests.contains_key(&old.request_id));
    assert!(adapter.pending_requests.contains_key(&new.request_id));
    match HorizontalAdapter::lost_request() {
        Error::Other(m) => assert_eq!(m, "Request was removed"),
        _ => panic!("expected another error"),
    }
}
