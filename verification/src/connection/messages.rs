//! What clients and the other servers are told, field by field, of what came in.

use vstd::prelude::*;

use crate::app::config::AppView;
use crate::app::memory_app_manager::app_with_id;
use crate::channel::manager::{presence_data, PresenceView};
use crate::channel::types::{channel_type, restricted_by_prefix, ChannelType, MemberView};
use crate::connection::departure::{lemma_presence_prefix, Departed};
use crate::connection::handler::{
    authentic, bare_event, channel_event, client_event_refusal, client_events_allowed, given_auth,
    member_added, member_removed, named_channel, publish_outcome, signed_user, Announcement,
    ServerView,
};
use crate::connection::laws::{broadcast_reaches_exactly_the_others, taken_out_leaves_no_trace};
use crate::connection::redis_manager::{Publication, PublicationView};
use crate::connection::session::{client_data, Handled, Pending};
use crate::error::{ErrorView, Result};
use crate::json::{json_parsed, JsonView};
use crate::namespace::NamespaceView;
use crate::protocol::{DataView, FrameView, MessageView, OutgoingView};
use crate::table::named_order;
use crate::text::opt_text;
use crate::token::signature;

verus! {

/// The frames of a connection, the oldest first; none where it does not exist.
pub open spec fn outbox(server: ServerView, app_id: Seq<char>, id: Seq<char>) -> Seq<FrameView> {
    if server.spaces.contains_key(app_id) && server.spaces[app_id].sockets.contains_key(id) {
        server.spaces[app_id].sockets[id].outbox
    } else {
        Seq::empty()
    }
}

/// Whether a connection is on a channel.
pub open spec fn is_on(
    server: ServerView,
    app_id: Seq<char>,
    channel: Seq<char>,
    id: Seq<char>,
) -> bool {
    &&& server.spaces.contains_key(app_id)
    &&& server.spaces[app_id].channels.contains_key(channel)
    &&& server.spaces[app_id].channels[channel].sockets.contains(id)
}

/// Whether a connection exists.
pub open spec fn is_connected(server: ServerView, app_id: Seq<char>, id: Seq<char>) -> bool {
    server.spaces.contains_key(app_id) && server.spaces[app_id].sockets.contains_key(id)
}

/// Whether every connection of an application takes frames.
pub open spec fn all_open(server: ServerView, app_id: Seq<char>) -> bool {
    forall|id: Seq<char>|
        #![trigger server.spaces[app_id].sockets[id]]
        is_connected(server, app_id, id) ==> server.spaces[app_id].sockets[id].open
}

/// A connection that subscribes to a presence channel with the signature that the application's
/// secret gives, and says who joins, is on the channel as that user. Every other connection on the
/// channel is told of the user and of what the user told of itself, once, and so are the other
/// servers; nobody else is told anything.
pub proof fn member_that_joins_is_told_of_in_full(
    server: ServerView,
    app_id: Seq<char>,
    id: Seq<char>,
    channel: Seq<char>,
    text: Seq<char>,
    user_data: Option<Seq<char>>,
    extra: Map<Seq<char>, JsonView>,
    fields: Map<Seq<char>, JsonView>,
    user_id: Seq<char>,
    r: Result<Option<Announcement>>,
    after: ServerView,
    other: Seq<char>,
)
    requires
        server.subscribes(
            app_id,
            id,
            Some(
                DataView::Structured {
                    channel_data: Some(text),
                    channel: Some(channel),
                    user_data,
                    extra,
                },
            ),
            r,
            after,
        ),
        server.apps.contains_key(app_id),
        "presence-"@.is_prefix_of(channel),
        extra.contains_key("auth"@),
        extra["auth"@] == JsonView::Str(
            server.apps[app_id].key + ":"@ + signature(
                server.apps[app_id].secret,
                id + ":"@ + channel + ":"@ + text,
            ),
        ),
        json_parsed(text) == Ok::<JsonView, Seq<char>>(JsonView::Object(fields)),
        fields.contains_key("user_id"@),
        fields["user_id"@] == JsonView::Str(user_id),
        is_connected(server, app_id, id),
        is_connected(server, app_id, other),
        other != id,
        !is_on(server, app_id, channel, id),
        all_open(server, app_id),
    ensures
        ({
            let info = if fields.contains_key("user_info"@) {
                fields["user_info"@]
            } else {
                JsonView::Null
            };
            let told = OutgoingView::MemberAdded { channel, user_id, user_info: Some(info) };
            &&& r matches Ok(Some(todo))
            &&& todo.channel@ == channel
            &&& todo.publication@ == (PublicationView {
                node_id: server.node,
                app_id,
                channel,
                socket_id: id,
                message: told,
            })
            &&& is_on(after, app_id, channel, id)
            &&& outbox(after, app_id, id) == outbox(server, app_id, id)
            &&& outbox(after, app_id, other) == if is_on(server, app_id, channel, other) {
                outbox(server, app_id, other).push(FrameView::Text(told))
            } else {
                outbox(server, app_id, other)
            }
            &&& ({
                let before = server.spaces[app_id].sockets[id].state;
                let state = after.spaces[app_id].sockets[id].state;
                &&& state.user_id == Some(user_id)
                &&& state.subscribed_channels == before.subscribed_channels.insert(channel)
                &&& state.presence == Some(
                    match before.presence {
                        Some(known) => known,
                        None => Map::empty(),
                    }.insert(channel, MemberView { user_id, user_info: Some(info) }),
                )
                &&& state.user == before.user
                &&& state.app == before.app
                &&& state.socket_id == before.socket_id
                &&& state.last_ping == before.last_ping
            })
        }),
{
    let data = Some(
        DataView::Structured {
            channel_data: Some(text),
            channel: Some(channel),
            user_data,
            extra,
        },
    );
    lemma_presence_prefix(channel);
    reveal_strlit(":");
    reveal_strlit("");
    let auth = extra["auth"@]->Str_0;
    assert(auth.len() > 0);
    let before = server.space(app_id);
    let info = if fields.contains_key("user_info"@) {
        fields["user_info"@]
    } else {
        JsonView::Null
    };
    assert(given_auth(data) == auth);
    assert(authentic(server.apps[app_id], id, data));
    let member = presence_data(data)->Ok_0;
    assert(member.user_id == user_id && member.user_info == info);
    let noted = before.after_join(channel, id, data).noted(id, channel, Some(member));
    assert(noted.room(channel).sockets =~= before.room(channel).sockets.insert(id));
    assert forall|x: Seq<char>| #[trigger] noted.targets(channel, Some(id)).contains(x) implies
        noted.sockets[x].open by {
        assert(is_connected(server, app_id, x));
        assert(server.spaces[app_id].sockets[x].open);
    }
    assert(noted.all_take(channel, Some(id)));
    if is_on(server, app_id, channel, other) {
        assert(noted.targets(channel, Some(id)).contains(other));
        assert(server.spaces[app_id].sockets[other].open);
    }
}

/// What a connection has got when the server is done with it after a failure: what it had got
/// before, the failure, that it was disconnected, and the close with its code.
pub open spec fn farewell(
    before: Seq<FrameView>,
    error: ErrorView,
    channel: Option<Seq<char>>,
) -> Seq<FrameView> {
    before + seq![
        FrameView::Text(OutgoingView::Failure { error, channel }),
        FrameView::Text(
            OutgoingView::Error {
                code: 4009,
                message: "You got disconnected by the application"@,
                channel: None,
            },
        ),
        FrameView::Close(4009),
    ]
}

/// Whether a message ended its connection: the report names the event, the connection is not there
/// any more and on no channel, and what it got before it went is the farewell.
pub open spec fn ended(
    server: ServerView,
    app_id: Seq<char>,
    id: Seq<char>,
    event: Seq<char>,
    channel: Option<Seq<char>>,
    error: ErrorView,
    r: Handled,
    after: ServerView,
) -> bool {
    &&& r matches Handled::Failed { error: reported, gone: Some(conn) }
    &&& reported@ == ErrorView::ClientEventError("Failed to handle event: "@ + event)
    &&& conn@.outbox == farewell(outbox(server, app_id, id), error, channel)
    &&& !is_connected(after, app_id, id)
    &&& forall|c: Seq<char>| !(#[trigger] is_on(after, app_id, c, id))
}

/// The failure of an event ends the connection.
proof fn lemma_ended(
    server: ServerView,
    start: ServerView,
    app_id: Seq<char>,
    id: Seq<char>,
    event: Seq<char>,
    channel: Option<Seq<char>>,
    error: ErrorView,
    r: Handled,
    after: ServerView,
)
    requires
        server.fails(app_id, id, event, channel, error, r, after),
        is_connected(server, app_id, id),
        server.spaces[app_id].sockets[id].open,
        outbox(server, app_id, id) == outbox(start, app_id, id),
    ensures
        ended(start, app_id, id, event, channel, error, r, after),
{
    let told = server.told(app_id, id, OutgoingView::Failure { error, channel });
    assert forall|c: Seq<char>| !(#[trigger] is_on(after, app_id, c, id)) by {
        taken_out_leaves_no_trace(told.space(app_id), id, id, c, c);
    }
    let conn = r->gone->0;
    assert(conn@.outbox =~= farewell(outbox(server, app_id, id), error, channel));
}

/// A message without an event is turned down, and changes nothing.
pub proof fn message_without_event_is_turned_down(
    server: ServerView,
    app_id: Seq<char>,
    app_key: Seq<char>,
    id: Seq<char>,
    message: MessageView,
    structured: JsonView,
    r: Handled,
    after: ServerView,
)
    requires
        server.handles(app_id, app_key, id, message, structured, r, after),
        message.event is None,
    ensures
        r matches Handled::Rejected(e) && e@ == ErrorView::InvalidEventName(
            "Event name is required"@,
        ),
        after == server,
{
}

/// A ping is answered with a message that holds the event `pusher:pong` and nothing else; no other
/// connection gets anything. Over a connection that takes no messages it fails.
pub proof fn pong_holds_nothing_but_its_event(
    server: ServerView,
    app_id: Seq<char>,
    app_key: Seq<char>,
    id: Seq<char>,
    message: MessageView,
    structured: JsonView,
    r: Handled,
    after: ServerView,
    other: Seq<char>,
)
    requires
        server.handles(app_id, app_key, id, message, structured, r, after),
        message.event == Some("pusher:ping"@),
        is_connected(server, app_id, id),
    ensures
        server.spaces[app_id].sockets[id].open ==> {
            &&& r is Done
            &&& outbox(after, app_id, id) == outbox(server, app_id, id).push(
                FrameView::Text(
                    OutgoingView::Message(
                        MessageView {
                            channel: None,
                            name: None,
                            event: Some("pusher:pong"@),
                            data: None,
                        },
                    ),
                ),
            )
            &&& other != id ==> outbox(after, app_id, other) == outbox(server, app_id, other)
        },
        !server.spaces[app_id].sockets[id].open ==> {
            &&& r matches Handled::Failed { error, .. }
            &&& error@ == ErrorView::ClientEventError("Failed to handle event: pusher:ping"@)
            &&& !is_connected(after, app_id, id)
        },
{
    reveal_strlit("Failed to handle event: ");
    reveal_strlit("pusher:ping");
    reveal_strlit("Failed to handle event: pusher:ping");
    assert("Failed to handle event: "@ + "pusher:ping"@
        =~= "Failed to handle event: pusher:ping"@);
}

/// An event of a client that was sent reaches each other connection on the channel as a message
/// with this event, this channel and the data that the client gave: a string as a JSON string, a JSON
/// value as it is, structured data as their JSON form, and no data as null. The other servers are
/// told the same, and that the sender does not get it. It was sent by a connection on the channel,
/// which is a private or presence channel.
pub proof fn client_event_carries_the_data_of_the_client(
    server: ServerView,
    app_id: Seq<char>,
    app_key: Seq<char>,
    id: Seq<char>,
    message: MessageView,
    structured: JsonView,
    r: Handled,
    after: ServerView,
    event: Seq<char>,
    other: Seq<char>,
)
    requires
        server.handles(app_id, app_key, id, message, structured, r, after),
        message.event == Some(event),
        "client-"@.is_prefix_of(event),
        r is Ask,
        is_connected(server, app_id, other),
    ensures
        ({
            let value = match message.data {
                None => JsonView::Null,
                Some(DataView::String(s)) => JsonView::Str(s),
                Some(DataView::Json(v)) => v,
                Some(DataView::Structured { .. }) => structured,
            };
            &&& message.channel matches Some(channel)
            &&& ({
                let told = OutgoingView::Message(
                    MessageView {
                        channel: Some(channel),
                        name: None,
                        event: Some(event),
                        data: Some(DataView::Json(value)),
                    },
                );
                &&& r matches Handled::Ask(p, left)
                &&& p@ == (PublicationView {
                    node_id: server.node,
                    app_id,
                    channel,
                    socket_id: id,
                    message: told,
                })
                &&& left.joined is None
                &&& outbox(after, app_id, other) == if is_on(server, app_id, channel, other)
                    && other != id {
                    outbox(server, app_id, other).push(FrameView::Text(told))
                } else {
                    outbox(server, app_id, other)
                }
            })
            &&& is_on(server, app_id, channel, id)
            &&& "private-"@.is_prefix_of(channel) || "presence-"@.is_prefix_of(channel)
        }),
{
    lemma_client_events_are_no_protocol_events(event);
    let data = client_data(message.data, structured);
    let (s, mid) = lemma_client_event_given(
        server,
        app_id,
        app_key,
        id,
        message,
        structured,
        r,
        after,
    );
    let channel = message.channel->0;
    lemma_presence_prefix(channel);
    let ns = server.space(app_id);
    if ns.all_take(channel, Some(id)) {
        broadcast_reaches_exactly_the_others(
            ns,
            channel,
            channel_event(Some(event), channel, data),
            Some(id),
            other,
            channel,
        );
    }
}

/// The name of no event of the protocol starts as that of a client event.
proof fn lemma_client_events_are_no_protocol_events(event: Seq<char>)
    requires
        "client-"@.is_prefix_of(event),
    ensures
        event != "pusher:ping"@,
        event != "pusher:subscribe"@,
        event != "pusher:unsubscribe"@,
        event != "pusher:signin"@,
{
    reveal_strlit("client-");
    reveal_strlit("pusher:ping");
    reveal_strlit("pusher:subscribe");
    reveal_strlit("pusher:unsubscribe");
    reveal_strlit("pusher:signin");
    assert(event[0] == "client-"@[0]);
}

/// The events of the protocol have different names.
proof fn lemma_protocol_events_differ()
    ensures
        "pusher:ping"@ != "pusher:subscribe"@,
        "pusher:ping"@ != "pusher:unsubscribe"@,
        "pusher:ping"@ != "pusher:signin"@,
        "pusher:subscribe"@ != "pusher:unsubscribe"@,
        "pusher:subscribe"@ != "pusher:signin"@,
        "pusher:unsubscribe"@ != "pusher:signin"@,
{
    reveal_strlit("pusher:ping");
    reveal_strlit("pusher:subscribe");
    reveal_strlit("pusher:unsubscribe");
    reveal_strlit("pusher:signin");
    assert("pusher:ping"@.len() == 11);
    assert("pusher:subscribe"@.len() == 16);
    assert("pusher:unsubscribe"@.len() == 18);
    assert("pusher:signin"@.len() == 13);
}

/// How a subscription was handled that came in as a message.
proof fn lemma_subscribed(
    server: ServerView,
    app_id: Seq<char>,
    app_key: Seq<char>,
    id: Seq<char>,
    message: MessageView,
    structured: JsonView,
    r: Handled,
    after: ServerView,
) -> (found: (Result<Option<Announcement>>, ServerView))
    requires
        server.handles(app_id, app_key, id, message, structured, r, after),
        message.event == Some("pusher:subscribe"@),
    ensures
        server.subscribes(app_id, id, message.data, found.0, found.1),
        match found.0 {
            Ok(None) => r is Done && after == found.1,
            Ok(Some(todo)) => {
                &&& r matches Handled::Ask(p, left)
                &&& p@ == todo.publication@
                &&& left.event@ == "pusher:subscribe"@
                &&& opt_text(left.channel) == message.channel
                &&& left.joined matches Some((channel, members))
                &&& channel@ == todo.channel@
                &&& members@ == todo.members@
                &&& after == found.1
            },
            Err(e) => found.1.fails(
                app_id,
                id,
                "pusher:subscribe"@,
                message.channel,
                e@,
                r,
                after,
            ),
        },
{
    lemma_protocol_events_differ();
    let event = "pusher:subscribe"@;
    choose|s: Result<Option<Announcement>>, mid: ServerView| #[trigger]
        server.subscribes(app_id, id, message.data, s, mid) && match s {
            Ok(None) => r is Done && after == mid,
            Ok(Some(todo)) => {
                &&& r matches Handled::Ask(p, left)
                &&& p@ == todo.publication@
                &&& left.event@ == event
                &&& opt_text(left.channel) == message.channel
                &&& left.joined matches Some((channel, members))
                &&& channel@ == todo.channel@
                &&& members@ == todo.members@
                &&& after == mid
            },
            Err(e) => mid.fails(app_id, id, event, message.channel, e@, r, after),
        }
}

/// How a client event was handled that came in as a message.
proof fn lemma_client_event_given(
    server: ServerView,
    app_id: Seq<char>,
    app_key: Seq<char>,
    id: Seq<char>,
    message: MessageView,
    structured: JsonView,
    r: Handled,
    after: ServerView,
) -> (found: (Result<Publication>, ServerView))
    requires
        server.handles(app_id, app_key, id, message, structured, r, after),
        message.event matches Some(event) && "client-"@.is_prefix_of(event),
    ensures
        server.client_event_handled(
            app_id,
            id,
            message.event->0,
            message.channel,
            client_data(message.data, structured),
            found.0,
            found.1,
        ),
        match found.0 {
            Ok(todo) => {
                &&& r matches Handled::Ask(p, left)
                &&& p@ == todo@
                &&& left.event@ == message.event->0
                &&& opt_text(left.channel) == message.channel
                &&& left.joined is None
                &&& after == found.1
            },
            Err(e) => found.1.fails(
                app_id,
                id,
                message.event->0,
                message.channel,
                e@,
                r,
                after,
            ),
        },
{
    let event = message.event->0;
    lemma_client_events_are_no_protocol_events(event);
    let data = client_data(message.data, structured);
    choose|s: Result<Publication>, mid: ServerView| #[trigger]
        server.client_event_handled(app_id, id, event, message.channel, data, s, mid) && match s {
            Ok(todo) => {
                &&& r matches Handled::Ask(p, left)
                &&& p@ == todo@
                &&& left.event@ == event
                &&& opt_text(left.channel) == message.channel
                &&& left.joined is None
                &&& after == mid
            },
            Err(e) => mid.fails(app_id, id, event, message.channel, e@, r, after),
        }
}

/// A client event that may not be sent ends the connection that sent it, and no other connection
/// gets anything: one without a channel, one to a channel that is neither private nor presence, and
/// one to a channel that the connection is not on.
pub proof fn client_event_that_may_not_be_sent_ends_the_connection(
    server: ServerView,
    app_id: Seq<char>,
    app_key: Seq<char>,
    id: Seq<char>,
    message: MessageView,
    structured: JsonView,
    r: Handled,
    after: ServerView,
    event: Seq<char>,
    other: Seq<char>,
)
    requires
        server.handles(app_id, app_key, id, message, structured, r, after),
        message.event == Some(event),
        "client-"@.is_prefix_of(event),
        is_connected(server, app_id, id),
        server.spaces[app_id].sockets[id].open,
        message.channel is None || message.channel == Some("private-encrypted"@)
            || !("private-"@.is_prefix_of(message.channel->0) || "presence-"@.is_prefix_of(
            message.channel->0,
        )),
    ensures
        ended(
            server,
            app_id,
            id,
            event,
            message.channel,
            ErrorView::ClientEventError(
                match message.channel {
                    None => "Channel name is required"@,
                    Some(_) => "Client events can only be sent to private or presence channels"@,
                },
            ),
            r,
            after,
        ),
        other != id ==> outbox(after, app_id, other) == outbox(server, app_id, other),
{
    lemma_client_events_are_no_protocol_events(event);
    let data = client_data(message.data, structured);
    if message.channel is Some {
        lemma_presence_prefix(message.channel->0);
    }
    let (s, mid) = lemma_client_event_given(
        server,
        app_id,
        app_key,
        id,
        message,
        structured,
        r,
        after,
    );
    let error = client_event_refusal(event, message.channel)->0;
    assert(server.fails(app_id, id, event, message.channel, error, r, after));
    lemma_ended(server, server, app_id, id, event, message.channel, error, r, after);
}

/// A client event to a private or presence channel is not sent, and ends the connection that sent
/// it, where the connection is not on the channel or the application does not let its clients send
/// events. The connection's application is the one with the key that the connection came in with.
pub proof fn client_event_of_a_stranger_ends_the_connection(
    server: ServerView,
    app_id: Seq<char>,
    app_key: Seq<char>,
    id: Seq<char>,
    message: MessageView,
    structured: JsonView,
    r: Handled,
    after: ServerView,
    event: Seq<char>,
    channel: Seq<char>,
    app: AppView,
    other: Seq<char>,
)
    requires
        server.handles(app_id, app_key, id, message, structured, r, after),
        message.event == Some(event),
        "client-"@.is_prefix_of(event),
        is_connected(server, app_id, id),
        server.spaces[app_id].sockets[id].open,
        message.channel == Some(channel),
        channel != "private-encrypted"@,
        "private-"@.is_prefix_of(channel) || "presence-"@.is_prefix_of(channel),
        server.spaces[app_id].sockets[id].state.app == Some(app),
        forall|a: Seq<char>| #[trigger]
            server.apps.contains_key(a) && server.apps[a].key == app.key ==> server.apps[a] == app,
        exists|a: Seq<char>| #[trigger] server.apps.contains_key(a) && server.apps[a] == app,
        !app.enable_client_messages || !is_on(server, app_id, channel, id),
    ensures
        ended(
            server,
            app_id,
            id,
            event,
            Some(channel),
            ErrorView::ClientEventError(
                if !app.enable_client_messages {
                    "Client events are not enabled for this app"@
                } else {
                    "Client "@ + id + " is not subscribed to channel "@ + channel
                },
            ),
            r,
            after,
        ),
        other != id ==> outbox(after, app_id, other) == outbox(server, app_id, other),
{
    lemma_client_events_are_no_protocol_events(event);
    lemma_presence_prefix(channel);
    let data = client_data(message.data, structured);
    let (s, mid) = lemma_client_event_given(
        server,
        app_id,
        app_key,
        id,
        message,
        structured,
        r,
        after,
    );
    let key = server.space(app_id).sockets[id].state.app_key();
    let may = choose|may: bool| #[trigger]
        client_events_allowed(server.apps, key, may)
            && server.client_event_sent(app_id, id, event, channel, data, may, s, mid);
    let error = s->Err_0@;
    lemma_ended(mid, server, app_id, id, event, message.channel, error, r, after);
}

/// A client event that may be sent is: the application lets its clients send events, the connection
/// is on the private or presence channel, and the connections take messages.
pub proof fn client_event_that_may_be_sent_is(
    server: ServerView,
    app_id: Seq<char>,
    app_key: Seq<char>,
    id: Seq<char>,
    message: MessageView,
    structured: JsonView,
    r: Handled,
    after: ServerView,
    event: Seq<char>,
    channel: Seq<char>,
    app: AppView,
)
    requires
        server.handles(app_id, app_key, id, message, structured, r, after),
        message.event == Some(event),
        "client-"@.is_prefix_of(event),
        is_connected(server, app_id, id),
        all_open(server, app_id),
        message.channel == Some(channel),
        channel != "private-encrypted"@,
        "private-"@.is_prefix_of(channel) || "presence-"@.is_prefix_of(channel),
        server.spaces[app_id].sockets[id].state.app == Some(app),
        forall|a: Seq<char>| #[trigger]
            server.apps.contains_key(a) && server.apps[a].key == app.key ==> server.apps[a] == app,
        exists|a: Seq<char>| #[trigger] server.apps.contains_key(a) && server.apps[a] == app,
        app.enable_client_messages,
        is_on(server, app_id, channel, id),
    ensures
        r matches Handled::Ask(p, left) && left.event@ == event && left.joined is None
            && opt_text(left.channel) == Some(channel),
{
    lemma_client_events_are_no_protocol_events(event);
    lemma_presence_prefix(channel);
    lemma_all_take(server.space(app_id), channel, Some(id));
    let data = client_data(message.data, structured);
    let (s, mid) = lemma_client_event_given(
        server,
        app_id,
        app_key,
        id,
        message,
        structured,
        r,
        after,
    );
    let key = server.space(app_id).sockets[id].state.app_key();
    let may = choose|may: bool| #[trigger]
        client_events_allowed(server.apps, key, may)
            && server.client_event_sent(app_id, id, event, channel, data, may, s, mid);
    assert(may);
}

/// Where every connection takes messages, so do those that a message to a channel goes to.
proof fn lemma_all_take(ns: NamespaceView, channel: Seq<char>, except: Option<Seq<char>>)
    requires
        forall|id: Seq<char>|
            #![trigger ns.sockets[id]]
            ns.sockets.contains_key(id) ==> ns.sockets[id].open,
    ensures
        ns.all_take(channel, except),
{
    assert forall|id: Seq<char>| #[trigger] ns.targets(channel, except).contains(id) implies
        ns.sockets[id].open by {
        assert(ns.sockets.contains_key(id));
    }
}

/// Whether a connection on a channel tells of this user.
pub open spec fn tells_of(
    server: ServerView,
    app_id: Seq<char>,
    channel: Seq<char>,
    id: Seq<char>,
    user_id: Seq<char>,
) -> bool {
    &&& is_connected(server, app_id, id)
    &&& is_on(server, app_id, channel, id)
    &&& server.spaces[app_id].sockets[id].state.presence matches Some(known)
    &&& known.contains_key(channel)
    &&& known[channel].user_id == user_id
}

/// A signed subscription to a presence channel leaves to do: to tell the other servers of the user
/// that joined, and then the connection who is on the channel. That is the user itself and each user
/// that another connection on the channel tells of, each once, with what one of the connections tells
/// of the user, and how many users these are.
pub proof fn subscriber_will_be_told_who_is_there(
    server: ServerView,
    app_id: Seq<char>,
    app_key: Seq<char>,
    id: Seq<char>,
    message: MessageView,
    structured: JsonView,
    r: Handled,
    after: ServerView,
    channel: Seq<char>,
    text: Seq<char>,
    user_data: Option<Seq<char>>,
    extra: Map<Seq<char>, JsonView>,
    fields: Map<Seq<char>, JsonView>,
    user_id: Seq<char>,
    u: Seq<char>,
)
    requires
        server.handles(app_id, app_key, id, message, structured, r, after),
        message.event == Some("pusher:subscribe"@),
        message.data == Some(
            DataView::Structured {
                channel_data: Some(text),
                channel: Some(channel),
                user_data,
                extra,
            },
        ),
        server.apps.contains_key(app_id),
        "presence-"@.is_prefix_of(channel),
        extra.contains_key("auth"@),
        extra["auth"@] == JsonView::Str(
            server.apps[app_id].key + ":"@ + signature(
                server.apps[app_id].secret,
                id + ":"@ + channel + ":"@ + text,
            ),
        ),
        json_parsed(text) == Ok::<JsonView, Seq<char>>(JsonView::Object(fields)),
        fields.contains_key("user_id"@),
        fields["user_id"@] == JsonView::Str(user_id),
        is_connected(server, app_id, id),
        !is_on(server, app_id, channel, id),
        all_open(server, app_id),
    ensures
        ({
            let info = if fields.contains_key("user_info"@) {
                fields["user_info"@]
            } else {
                JsonView::Null
            };
            let elsewhere = exists|x: Seq<char>| #[trigger]
                tells_of(server, app_id, channel, x, u);
            &&& r matches Handled::Ask(p, left)
            &&& p@ == (PublicationView {
                node_id: server.node,
                app_id,
                channel,
                socket_id: id,
                message: OutgoingView::MemberAdded { channel, user_id, user_info: Some(info) },
            })
            &&& left.event@ == "pusher:subscribe"@
            &&& opt_text(left.channel) == message.channel
            &&& left.joined matches Some((name, members))
            &&& name@ == channel
            &&& members@.ids.no_duplicates()
            &&& members@.count == members@.ids.len()
            &&& members@.ids.contains(u) <==> (u == user_id || elsewhere)
            &&& members@.hash.contains_key(u) <==> members@.ids.contains(u)
            &&& u == user_id && !elsewhere ==> members@.hash[u] == Some(info)
            &&& u != user_id && elsewhere ==> exists|x: Seq<char>| #[trigger]
                tells_of(server, app_id, channel, x, u) && members@.hash[u]
                    == server.spaces[app_id].sockets[x].state.presence->0[channel].user_info
        }),
{
    let data = message.data;
    lemma_protocol_events_differ();
    let (s, mid) = lemma_subscribed(
        server,
        app_id,
        app_key,
        id,
        message,
        structured,
        r,
        after,
    );
    lemma_presence_prefix(channel);
    reveal_strlit(":");
    reveal_strlit("");
    assert(extra["auth"@]->Str_0.len() > 0);
    let info = if fields.contains_key("user_info"@) {
        fields["user_info"@]
    } else {
        JsonView::Null
    };
    let before = server.space(app_id);
    assert(authentic(server.apps[app_id], id, data));
    let member = presence_data(data)->Ok_0;
    assert(member.user_id == user_id && member.user_info == info);
    let noted = before.after_join(channel, id, data).noted(id, channel, Some(member));
    assert(noted.room(channel).sockets =~= before.room(channel).sockets.insert(id));
    assert forall|x: Seq<char>| #![trigger noted.sockets[x]]
        noted.sockets.contains_key(x) implies noted.sockets[x].open by {
        assert(is_connected(server, app_id, x));
        assert(server.spaces[app_id].sockets[x].open);
    }
    lemma_all_take(noted, channel, Some(id));
    let todo = s->Ok_0->0;
    let summary = todo.members@;
    let members = choose|members: Map<Seq<char>, MemberView>| #[trigger]
        noted.are_members(channel, members) && named_order(summary.ids, members.dom())
            && summary.hash == members.map_values(|m: MemberView| m.user_info) && summary.count
            == members.dom().len();
    assert(noted.told_by(channel, id) == Some(member.info()));
    summary.ids.unique_seq_to_set();
    assert(summary.ids.to_set().contains(u) <==> summary.ids.contains(u));
    assert(members.dom().contains(u) <==> members.contains_key(u));
    assert forall|x: Seq<char>| tells_of(server, app_id, channel, x, u) implies x != id
        && noted.told_by(channel, x) is Some && noted.told_by(channel, x)->0.user_id == u
        && noted.told_by(channel, x)->0
        == server.spaces[app_id].sockets[x].state.presence->0[channel] by {}
    if exists|x: Seq<char>| #[trigger] tells_of(server, app_id, channel, x, u) {
        let x = choose|x: Seq<char>| #[trigger] tells_of(server, app_id, channel, x, u);
        assert(noted.told_by(channel, x) is Some);
    }
    if members.contains_key(u) {
        let x = choose|x: Seq<char>| #[trigger] noted.told_by(channel, x) == Some(members[u]);
        if x != id {
            assert(tells_of(server, app_id, channel, x, u));
        }
    }
}

/// Once the other servers were told of a member that joined, the connection is told that its
/// subscription succeeded, for which channel, and who is on it, and nobody else is told anything. A
/// message of another kind is then done with, and nobody is told anything.
pub proof fn finished_subscription_is_confirmed(
    server: ServerView,
    app_id: Seq<char>,
    id: Seq<char>,
    left: Pending,
    published: std::result::Result<(), String>,
    r: Handled,
    after: ServerView,
    other: Seq<char>,
)
    requires
        server.joined_told(app_id, id, left.joined, published).concludes(
            app_id,
            id,
            left.event@,
            opt_text(left.channel),
            publish_outcome(published),
            r,
            after,
        ),
        published is Ok,
        is_connected(server, app_id, id),
        server.spaces[app_id].sockets[id].open,
    ensures
        r is Done,
        outbox(after, app_id, id) == match left.joined {
            Some((channel, members)) => outbox(server, app_id, id).push(
                FrameView::Text(
                    OutgoingView::SubscriptionSucceeded {
                        channel: channel@,
                        presence: Some(members@),
                    },
                ),
            ),
            None => outbox(server, app_id, id),
        },
        other != id ==> outbox(after, app_id, other) == outbox(server, app_id, other),
        after.apps == server.apps,
{
}

/// Where the other servers could not be told, the message ends its connection, which is told why.
pub proof fn unpublished_message_ends_the_connection(
    server: ServerView,
    app_id: Seq<char>,
    id: Seq<char>,
    left: Pending,
    reason: String,
    r: Handled,
    after: ServerView,
)
    requires
        server.joined_told(app_id, id, left.joined, Err(reason)).concludes(
            app_id,
            id,
            left.event@,
            opt_text(left.channel),
            publish_outcome(Err(reason)),
            r,
            after,
        ),
        is_connected(server, app_id, id),
        server.spaces[app_id].sockets[id].open,
    ensures
        ended(
            server,
            app_id,
            id,
            left.event@,
            opt_text(left.channel),
            ErrorView::ConnectionError("Failed to publish: "@ + reason@),
            r,
            after,
        ),
{
    lemma_ended(
        server,
        server,
        app_id,
        id,
        left.event@,
        opt_text(left.channel),
        ErrorView::ConnectionError("Failed to publish: "@ + reason@),
        r,
        after,
    );
}

/// A subscription to a channel that is no presence channel succeeds where the channel is not
/// private, or the data hold the signature that the application's secret gives of the connection and
/// the channel. The connection is on the channel then, and is told so; nobody else is told anything.
pub proof fn subscription_is_confirmed(
    server: ServerView,
    app_id: Seq<char>,
    app_key: Seq<char>,
    id: Seq<char>,
    message: MessageView,
    structured: JsonView,
    r: Handled,
    after: ServerView,
    channel: Seq<char>,
    channel_data: Option<Seq<char>>,
    user_data: Option<Seq<char>>,
    extra: Map<Seq<char>, JsonView>,
    other: Seq<char>,
)
    requires
        server.handles(app_id, app_key, id, message, structured, r, after),
        message.event == Some("pusher:subscribe"@),
        message.data == Some(
            DataView::Structured { channel_data, channel: Some(channel), user_data, extra },
        ),
        server.apps.contains_key(app_id),
        !"presence-"@.is_prefix_of(channel),
        "private-"@.is_prefix_of(channel) ==> extra.contains_key("auth"@) && extra["auth"@]
            == JsonView::Str(
            server.apps[app_id].key + ":"@ + signature(
                server.apps[app_id].secret,
                id + ":"@ + channel,
            ),
        ),
        is_connected(server, app_id, id),
        server.spaces[app_id].sockets[id].open,
    ensures
        r is Done,
        is_on(after, app_id, channel, id),
        outbox(after, app_id, id) == outbox(server, app_id, id).push(
            FrameView::Text(OutgoingView::SubscriptionSucceeded { channel, presence: None }),
        ),
        after.spaces[app_id].sockets[id].state.subscribed_channels
            == server.spaces[app_id].sockets[id].state.subscribed_channels.insert(channel),
        after.spaces[app_id].sockets[id].state.presence
            == server.spaces[app_id].sockets[id].state.presence,
        after.spaces[app_id].sockets[id].state.user_id
            == server.spaces[app_id].sockets[id].state.user_id,
        after.spaces[app_id].sockets[id].state.user
            == server.spaces[app_id].sockets[id].state.user,
        after.spaces[app_id].sockets[id].state.app == server.spaces[app_id].sockets[id].state.app,
        other != id ==> outbox(after, app_id, other) == outbox(server, app_id, other),
{
    let data = message.data;
    lemma_protocol_events_differ();
    let (s, mid) = lemma_subscribed(
        server,
        app_id,
        app_key,
        id,
        message,
        structured,
        r,
        after,
    );
    lemma_presence_prefix(channel);
    restricted_by_prefix(channel);
    reveal_strlit(":");
    reveal_strlit("");
    if "private-"@.is_prefix_of(channel) {
        assert(extra["auth"@]->Str_0.len() > 0);
        assert(authentic(server.apps[app_id], id, data));
    }
}

/// A subscription to a private or presence channel ends the connection where the data do not hold
/// the signature that the application's secret gives: of the connection and the channel, and on a
/// presence channel of who joins as well. Nobody else is told anything, and nobody joins.
pub proof fn subscription_without_signature_ends_the_connection(
    server: ServerView,
    app_id: Seq<char>,
    app_key: Seq<char>,
    id: Seq<char>,
    message: MessageView,
    structured: JsonView,
    r: Handled,
    after: ServerView,
    channel: Seq<char>,
    channel_data: Seq<char>,
    user_data: Option<Seq<char>>,
    extra: Map<Seq<char>, JsonView>,
    other: Seq<char>,
)
    requires
        server.handles(app_id, app_key, id, message, structured, r, after),
        message.event == Some("pusher:subscribe"@),
        message.data == Some(
            DataView::Structured {
                channel_data: Some(channel_data),
                channel: Some(channel),
                user_data,
                extra,
            },
        ),
        server.apps.contains_key(app_id),
        "presence-"@.is_prefix_of(channel) || "private-"@.is_prefix_of(channel),
        !(extra.contains_key("auth"@) && extra["auth"@] == JsonView::Str(
            server.apps[app_id].key + ":"@ + signature(
                server.apps[app_id].secret,
                if "presence-"@.is_prefix_of(channel) {
                    id + ":"@ + channel + ":"@ + channel_data
                } else {
                    id + ":"@ + channel
                },
            ),
        )),
        is_connected(server, app_id, id),
        server.spaces[app_id].sockets[id].open,
    ensures
        ended(
            server,
            app_id,
            id,
            "pusher:subscribe"@,
            message.channel,
            if extra.contains_key("auth"@) && (extra["auth"@] matches JsonView::Str(given)
                && given.len() > 0) {
                ErrorView::ChannelError("Failed to subscribe"@)
            } else {
                ErrorView::AuthError("Authentication required"@)
            },
            r,
            after,
        ),
        other != id ==> outbox(after, app_id, other) == outbox(server, app_id, other),
{
    let data = message.data;
    lemma_protocol_events_differ();
    let (s, mid) = lemma_subscribed(
        server,
        app_id,
        app_key,
        id,
        message,
        structured,
        r,
        after,
    );
    lemma_presence_prefix(channel);
    restricted_by_prefix(channel);
    reveal_strlit("");
    let given = given_auth(data);
    if given.len() == 0 {
        assert(given =~= ""@);
    }
    let error = s->Err_0@;
    lemma_ended(server, server, app_id, id, "pusher:subscribe"@, message.channel, error, r, after);
}

/// A connection that leaves a presence channel that it joined is off it, and does not tell of itself
/// there any more. Every other connection on the channel is told once which user left, and so are the
/// other servers; nobody else is told anything.
pub proof fn member_that_leaves_is_told_of(
    server: ServerView,
    app_id: Seq<char>,
    app_key: Seq<char>,
    id: Seq<char>,
    message: MessageView,
    structured: JsonView,
    r: Handled,
    after: ServerView,
    channel: Seq<char>,
    known: Map<Seq<char>, MemberView>,
    other: Seq<char>,
)
    requires
        server.handles(app_id, app_key, id, message, structured, r, after),
        message.event == Some("pusher:unsubscribe"@),
        message.channel == Some(channel),
        "presence-"@.is_prefix_of(channel),
        is_connected(server, app_id, id),
        server.spaces[app_id].sockets[id].state.presence == Some(known),
        known.contains_key(channel),
        all_open(server, app_id),
        is_connected(server, app_id, other),
    ensures
        ({
            let told = OutgoingView::MemberRemoved { channel, user_id: known[channel].user_id };
            &&& r matches Handled::Tell(p)
            &&& p@ == (PublicationView {
                node_id: server.node,
                app_id,
                channel,
                socket_id: id,
                message: told,
            })
            &&& outbox(after, app_id, other) == if is_on(server, app_id, channel, other) && other
                != id {
                outbox(server, app_id, other).push(FrameView::Text(told))
            } else {
                outbox(server, app_id, other)
            }
            &&& !is_on(after, app_id, channel, id)
            &&& is_connected(after, app_id, id)
            &&& after.spaces[app_id].sockets[id].state.presence == Some(known.remove(channel))
            &&& after.spaces[app_id].sockets[id].state.subscribed_channels
                == server.spaces[app_id].sockets[id].state.subscribed_channels.remove(channel)
            &&& after.spaces[app_id].sockets[id].state.user_id
                == server.spaces[app_id].sockets[id].state.user_id
            &&& after.spaces[app_id].sockets[id].state.user
                == server.spaces[app_id].sockets[id].state.user
            &&& after.spaces[app_id].sockets[id].state.app
                == server.spaces[app_id].sockets[id].state.app
        }),
{
    lemma_protocol_events_differ();
    lemma_presence_prefix(channel);
    let ns = server.space(app_id);
    let user_id = known[channel].user_id;
    let left = ns.after_leave(channel, id, Some(user_id));
    let mid = left.with_conn(id, ns.sockets[id].struck(channel));
    let rest = ns.room(channel).exited(channel, id, Some(user_id)).sockets;
    assert(rest == ns.room(channel).sockets.remove(id));
    assert(mid.room(channel).sockets == rest);
    assert forall|x: Seq<char>| #![trigger mid.sockets[x]]
        mid.sockets.contains_key(x) implies mid.sockets[x].open by {
        assert(is_connected(server, app_id, x));
        assert(server.spaces[app_id].sockets[x].open);
    }
    lemma_all_take(mid, channel, Some(id));
    let told = OutgoingView::MemberRemoved { channel, user_id };
    broadcast_reaches_exactly_the_others(mid, channel, told, Some(id), other, channel);
    broadcast_reaches_exactly_the_others(mid, channel, told, Some(id), id, channel);
}

/// A connection that leaves a channel that is no presence channel is off it, and nobody is told
/// anything.
pub proof fn connection_leaves_a_channel_silently(
    server: ServerView,
    app_id: Seq<char>,
    app_key: Seq<char>,
    id: Seq<char>,
    message: MessageView,
    structured: JsonView,
    r: Handled,
    after: ServerView,
    channel: Seq<char>,
    c: Seq<char>,
    other: Seq<char>,
)
    requires
        server.handles(app_id, app_key, id, message, structured, r, after),
        message.event == Some("pusher:unsubscribe"@),
        message.channel == Some(channel),
        !"presence-"@.is_prefix_of(channel),
    ensures
        r is Done,
        is_on(after, app_id, c, other) <==> is_on(server, app_id, c, other) && !(c == channel
            && other == id),
        outbox(after, app_id, other) == outbox(server, app_id, other),
        is_connected(after, app_id, other) == is_connected(server, app_id, other),
{
    lemma_protocol_events_differ();
    lemma_presence_prefix(channel);
    let ns = server.space(app_id);
    let rest = ns.room(channel).exited(channel, id, None).sockets;
    assert(rest == ns.room(channel).sockets.remove(id));
    if rest == Set::<Seq<char>>::empty() {
        assert(!rest.contains(other));
    }
}

/// A connection that closes leaves a channel. Where that is a presence channel, and no other
/// connection on it tells of the user, every other connection on it is told once that the user left,
/// and so are the other servers. Else nobody is told anything.
pub proof fn user_that_is_gone_is_told_of(
    server: ServerView,
    app_id: Seq<char>,
    id: Seq<char>,
    user_id: Option<Seq<char>>,
    channel: Seq<char>,
    r: Result<Departed>,
    after: ServerView,
    other: Seq<char>,
)
    requires
        server.leaves(app_id, id, user_id, channel, r, after),
        all_open(server, app_id),
        is_connected(server, app_id, other),
    ensures
        !is_on(after, app_id, channel, id),
        "presence-"@.is_prefix_of(channel) && user_id is Some && !(exists|x: Seq<char>|
            x != id && #[trigger] tells_of(server, app_id, channel, x, user_id->0)) ==> {
            let told = OutgoingView::MemberRemoved { channel, user_id: user_id->0 };
            &&& r matches Ok(Departed::Tell(p))
            &&& p@ == (PublicationView {
                node_id: server.node,
                app_id,
                channel,
                socket_id: id,
                message: told,
            })
            &&& outbox(after, app_id, other) == if is_on(server, app_id, channel, other) && other
                != id {
                outbox(server, app_id, other).push(FrameView::Text(told))
            } else {
                outbox(server, app_id, other)
            }
        },
        !("presence-"@.is_prefix_of(channel) && user_id is Some && !(exists|x: Seq<char>|
            x != id && #[trigger] tells_of(server, app_id, channel, x, user_id->0))) ==> {
            &&& r matches Ok(Departed::Left)
            &&& outbox(after, app_id, other) == outbox(server, app_id, other)
        },
{
    lemma_presence_prefix(channel);
    let ns = server.space(app_id);
    let left = ns.after_leave(channel, id, user_id);
    let mid = ns.abandoned(channel, id, user_id);
    let rest = ns.room(channel).exited(channel, id, user_id).sockets;
    assert(rest == ns.room(channel).sockets.remove(id));
    assert(left.room(channel).sockets == rest);
    assert(mid.room(channel).sockets == rest);
    assert(mid.sockets == ns.sockets);
    if user_id is Some {
        let u = user_id->0;
        assert forall|x: Seq<char>| x != id && #[trigger]
            tells_of(server, app_id, channel, x, u) implies left.told_by(channel, x) is Some
            && left.told_by(channel, x)->0.user_id == u by {}
        if left.still_there(channel, u) {
            let x = choose|x: Seq<char>|
                (#[trigger] left.told_by(channel, x)) is Some && left.told_by(channel, x)->0.user_id
                    == u;
            assert(x != id && tells_of(server, app_id, channel, x, u));
        }
        if exists|x: Seq<char>| x != id && #[trigger] tells_of(server, app_id, channel, x, u) {
            let x = choose|x: Seq<char>|
                x != id && #[trigger] tells_of(server, app_id, channel, x, u);
            assert(left.told_by(channel, x) is Some);
            assert(left.still_there(channel, u));
        }
        assert forall|x: Seq<char>| #![trigger mid.sockets[x]]
            mid.sockets.contains_key(x) implies mid.sockets[x].open by {
            assert(is_connected(server, app_id, x));
            assert(server.spaces[app_id].sockets[x].open);
        }
        lemma_all_take(mid, channel, Some(id));
        let told = OutgoingView::MemberRemoved { channel, user_id: u };
        broadcast_reaches_exactly_the_others(mid, channel, told, Some(id), other, channel);
    }
}

/// A connection that was forgotten is not there any more; the others are as they were, and who is on
/// which channel has not changed.
pub proof fn forgotten_connection_is_gone(
    server: ServerView,
    app_id: Seq<char>,
    id: Seq<char>,
    other: Seq<char>,
    c: Seq<char>,
)
    ensures
        !is_connected(server.forgot(app_id, id), app_id, id),
        other != id ==> {
            &&& is_connected(server.forgot(app_id, id), app_id, other) == is_connected(
                server,
                app_id,
                other,
            )
            &&& outbox(server.forgot(app_id, id), app_id, other) == outbox(server, app_id, other)
        },
        is_on(server.forgot(app_id, id), app_id, c, other) == is_on(server, app_id, c, other),
{
}

/// A sign-in with the signature that the application's secret gives of the connection and the user's
/// data signs the user in: the connection is noted as the user's, and is told that it succeeded, and
/// with which data. Any other signature ends the connection. The application is the one that is
/// registered under `app_key`.
pub proof fn sign_in_is_confirmed_with_the_user(
    server: ServerView,
    app_id: Seq<char>,
    app_key: Seq<char>,
    id: Seq<char>,
    message: MessageView,
    structured: JsonView,
    r: Handled,
    after: ServerView,
    fields: Map<Seq<char>, JsonView>,
    user_data: Seq<char>,
    auth: Seq<char>,
    user: JsonView,
    other: Seq<char>,
)
    requires
        server.handles(app_id, app_key, id, message, structured, r, after),
        message.event == Some("pusher:signin"@),
        message.data == Some(DataView::Json(JsonView::Object(fields))) || (message.data matches Some(
            DataView::Structured { extra, .. },
        ) && extra == fields),
        fields.contains_key("user_data"@),
        fields["user_data"@] == JsonView::Str(user_data),
        fields.contains_key("auth"@),
        fields["auth"@] == JsonView::Str(auth),
        json_parsed(user_data) == Ok::<JsonView, Seq<char>>(user),
        server.apps.contains_key(app_key),
        is_connected(server, app_id, id),
        server.spaces[app_id].sockets[id].open,
    ensures
        auth == signature(server.apps[app_key].secret, id + "::user::"@ + user_data) ==> {
            &&& r is Done
            &&& is_connected(after, app_id, id)
            &&& after.spaces[app_id].sockets[id].state.user == Some(user)
            &&& after.spaces[app_id].sockets[id].state.user_id
                == server.spaces[app_id].sockets[id].state.user_id
            &&& after.spaces[app_id].sockets[id].state.presence
                == server.spaces[app_id].sockets[id].state.presence
            &&& after.spaces[app_id].sockets[id].state.subscribed_channels
                == server.spaces[app_id].sockets[id].state.subscribed_channels
            &&& after.spaces[app_id].sockets[id].state.app
                == server.spaces[app_id].sockets[id].state.app
            &&& outbox(after, app_id, id) == outbox(server, app_id, id).push(
                FrameView::Text(
                    OutgoingView::Message(
                        MessageView {
                            channel: None,
                            name: None,
                            event: Some("pusher:signin_success"@),
                            data: Some(DataView::Json(user)),
                        },
                    ),
                ),
            )
        },
        auth != signature(server.apps[app_key].secret, id + "::user::"@ + user_data) ==> ended(
            server,
            app_id,
            id,
            "pusher:signin"@,
            message.channel,
            ErrorView::AuthError("Connection not authorized."@),
            r,
            after,
        ),
        other != id ==> outbox(after, app_id, other) == outbox(server, app_id, other),
{
    lemma_protocol_events_differ();
    if auth != signature(server.apps[app_key].secret, id + "::user::"@ + user_data) {
        lemma_ended(
            server,
            server,
            app_id,
            id,
            "pusher:signin"@,
            message.channel,
            ErrorView::AuthError("Connection not authorized."@),
            r,
            after,
        );
    }
}

/// A sign-in that lacks its data, the user's data or the signature, or whose user's data are no
/// JSON, ends the connection; so does one for an application that does not exist.
pub proof fn incomplete_sign_in_ends_the_connection(
    server: ServerView,
    app_id: Seq<char>,
    app_key: Seq<char>,
    id: Seq<char>,
    message: MessageView,
    structured: JsonView,
    r: Handled,
    after: ServerView,
    fields: Map<Seq<char>, JsonView>,
    error: ErrorView,
)
    requires
        server.handles(app_id, app_key, id, message, structured, r, after),
        message.event == Some("pusher:signin"@),
        is_connected(server, app_id, id),
        server.spaces[app_id].sockets[id].open,
        ({
            let has_user = fields.contains_key("user_data"@) && fields["user_data"@] is Str;
            let has_auth = fields.contains_key("auth"@) && fields["auth"@] is Str;
            let parsed = json_parsed(fields["user_data"@]->Str_0);
            ||| message.data is None && error == ErrorView::AuthError(
                "Missing data in signin message"@,
            )
            ||| message.data == Some(DataView::Json(JsonView::Object(fields))) && {
                ||| !has_user && error == ErrorView::AuthError("Missing user_data field"@)
                ||| has_user && !has_auth && error == ErrorView::AuthError("Missing auth field"@)
                ||| has_user && has_auth && parsed is Err && error == ErrorView::AuthError(
                    "Invalid user data: "@ + parsed->Err_0,
                )
                ||| has_user && has_auth && parsed is Ok && !server.apps.contains_key(app_key)
                    && error == ErrorView::InvalidKey
            }
        }),
    ensures
        ended(server, app_id, id, "pusher:signin"@, message.channel, error, r, after),
{
    lemma_protocol_events_differ();
    reveal_strlit("Missing ");
    reveal_strlit("user_data");
    reveal_strlit("auth");
    reveal_strlit(" field");
    reveal_strlit("Missing user_data field");
    reveal_strlit("Missing auth field");
    assert("Missing "@ + "user_data"@ + " field"@ =~= "Missing user_data field"@);
    assert("Missing "@ + "auth"@ + " field"@ =~= "Missing auth field"@);
    lemma_ended(
        server,
        server,
        app_id,
        id,
        "pusher:signin"@,
        message.channel,
        error,
        r,
        after,
    );
}

/// An event that came in over HTTP reaches each connection on the channel, but the one that it
/// excepts, as a message with its name as the event, the channel, and its data, null where it has
/// none. The other servers are told the same; an empty id stands for an event that excepts nobody.
pub proof fn api_event_carries_its_name_and_data(
    server: ServerView,
    app_id: Seq<char>,
    except: Option<Seq<char>>,
    name: Option<Seq<char>>,
    data: Option<JsonView>,
    channel: Seq<char>,
    r: Option<Publication>,
    after: ServerView,
    id: Seq<char>,
)
    requires
        server.sends(app_id, except, name, data, channel, r, after),
        all_open(server, app_id),
        is_connected(server, app_id, id),
    ensures
        ({
            let told = OutgoingView::Message(
                MessageView {
                    channel: Some(channel),
                    name: None,
                    event: name,
                    data: Some(
                        DataView::Json(
                            match data {
                                Some(v) => v,
                                None => JsonView::Null,
                            },
                        ),
                    ),
                },
            );
            &&& r matches Some(p)
            &&& p@.node_id == server.node
            &&& p@.app_id == app_id
            &&& p@.channel == channel
            &&& p@.message == told
            &&& except matches Some(x) ==> p@.socket_id == x
            &&& except is None ==> p@.socket_id.len() == 0
            &&& outbox(after, app_id, id) == if is_on(server, app_id, channel, id) && except
                != Some(id) {
                outbox(server, app_id, id).push(FrameView::Text(told))
            } else {
                outbox(server, app_id, id)
            }
        }),
{
    reveal_strlit("");
    let ns = server.space(app_id);
    assert forall|x: Seq<char>| #![trigger ns.sockets[x]]
        ns.sockets.contains_key(x) implies ns.sockets[x].open by {
        assert(is_connected(server, app_id, x));
        assert(server.spaces[app_id].sockets[x].open);
    }
    lemma_all_take(ns, channel, except);
    broadcast_reaches_exactly_the_others(ns, channel, r->0@.message, except, id, channel);
}

/// An event that came in over HTTP and that a connection refuses is not published.
pub proof fn refused_api_event_is_not_published(
    server: ServerView,
    app_id: Seq<char>,
    except: Option<Seq<char>>,
    name: Option<Seq<char>>,
    data: Option<JsonView>,
    channel: Seq<char>,
    r: Option<Publication>,
    after: ServerView,
    id: Seq<char>,
)
    requires
        server.sends(app_id, except, name, data, channel, r, after),
        is_connected(server, app_id, id),
        is_on(server, app_id, channel, id),
        except != Some(id),
        !server.spaces[app_id].sockets[id].open,
    ensures
        r is None,
{
    assert(server.space(app_id).targets(channel, except).contains(id));
}

/// A connection that comes in to an application that exists is connected to it, on no channel and
/// for no user, and is told its id; one that had the id before is not on any channel any more. One
/// that comes in to an application that does not exist is not connected.
pub proof fn new_connection_is_told_its_id(
    server: ServerView,
    app_id: Seq<char>,
    id: Seq<char>,
    other: Seq<char>,
    c: Seq<char>,
)
    ensures
        server.apps.contains_key(app_id) ==> {
            let after = server.admitted(app_id, id);
            let conn = after.spaces[app_id].sockets[id];
            &&& is_connected(after, app_id, id)
            &&& conn.open
            &&& outbox(after, app_id, id) == seq![
                FrameView::Text(OutgoingView::ConnectionEstablished { socket_id: id }),
            ]
            &&& conn.state.socket_id == id
            &&& conn.state.app == Some(server.apps[app_id])
            &&& conn.state.subscribed_channels == Set::<Seq<char>>::empty()
            &&& conn.state.user_id is None
            &&& conn.state.presence is None
            &&& conn.state.user is None
            &&& conn.state.last_ping == 0
        },
        !server.apps.contains_key(app_id) ==> !is_connected(
            server.admitted(app_id, id),
            app_id,
            id,
        ),
        is_connected(server, app_id, id) ==> !is_on(server.admitted(app_id, id), app_id, c, id),
        other != id ==> {
            &&& is_connected(server.admitted(app_id, id), app_id, other) == is_connected(
                server,
                app_id,
                other,
            )
            &&& outbox(server.admitted(app_id, id), app_id, other) == outbox(server, app_id, other)
            &&& is_on(server.admitted(app_id, id), app_id, c, other) == is_on(
                server,
                app_id,
                c,
                other,
            )
        },
{
    let ns = server.space(app_id);
    taken_out_leaves_no_trace(ns, id, other, c, c);
    if server.apps.contains_key(app_id) {
        let after = server.admitted(app_id, id);
        assert(outbox(after, app_id, id) =~= seq![
            FrameView::Text(OutgoingView::ConnectionEstablished { socket_id: id }),
        ]);
    }
    let entered = ns.entered(id, app_with_id(server.apps, app_id));
    assert(is_on(server.admitted(app_id, id), app_id, c, other) == entered.room(
        c,
    ).sockets.contains(other));
}

/// A ping frame is noted with its time on the connection that it came in over, and nothing else
/// changes.
pub proof fn ping_frame_is_noted_with_its_time(
    ns: NamespaceView,
    id: Seq<char>,
    now: u64,
    other: Seq<char>,
)
    requires
        ns.sockets.contains_key(id),
    ensures
        ns.pinged(id, now).sockets.dom() == ns.sockets.dom(),
        ns.pinged(id, now).sockets[id].state.last_ping == now,
        ns.pinged(id, now).sockets[id].outbox == ns.sockets[id].outbox,
        ns.pinged(id, now).sockets[id].open == ns.sockets[id].open,
        ns.pinged(id, now).sockets[id].state.subscribed_channels
            == ns.sockets[id].state.subscribed_channels,
        ns.pinged(id, now).sockets[id].state.presence == ns.sockets[id].state.presence,
        ns.pinged(id, now).sockets[id].state.user == ns.sockets[id].state.user,
        ns.pinged(id, now).sockets[id].state.user_id == ns.sockets[id].state.user_id,
        ns.pinged(id, now).sockets[id].state.app == ns.sockets[id].state.app,
        ns.pinged(id, now).sockets[id].state.socket_id == ns.sockets[id].state.socket_id,
        other != id ==> ns.pinged(id, now).sockets[other] == ns.sockets[other],
        ns.pinged(id, now).channels == ns.channels,
        ns.pinged(id, now).users == ns.users,
{
    assert(ns.pinged(id, now).sockets.dom() =~= ns.sockets.dom());
}

/// A subscription ends the connection where the application does not exist. So does a signed one to a
/// presence channel whose `channel_data` are no JSON object with a text under `user_id`. Nobody else is
/// told anything.
pub proof fn subscription_that_names_nobody_ends_the_connection(
    server: ServerView,
    app_id: Seq<char>,
    app_key: Seq<char>,
    id: Seq<char>,
    message: MessageView,
    structured: JsonView,
    r: Handled,
    after: ServerView,
    channel: Seq<char>,
    text: Seq<char>,
    user_data: Option<Seq<char>>,
    extra: Map<Seq<char>, JsonView>,
    other: Seq<char>,
)
    requires
        server.handles(app_id, app_key, id, message, structured, r, after),
        message.event == Some("pusher:subscribe"@),
        message.data == Some(
            DataView::Structured {
                channel_data: Some(text),
                channel: Some(channel),
                user_data,
                extra,
            },
        ),
        !server.apps.contains_key(app_id) || {
            &&& "presence-"@.is_prefix_of(channel)
            &&& extra.contains_key("auth"@)
            &&& extra["auth"@] == JsonView::Str(
                server.apps[app_id].key + ":"@ + signature(
                    server.apps[app_id].secret,
                    id + ":"@ + channel + ":"@ + text,
                ),
            )
            &&& !is_on(server, app_id, channel, id)
            &&& match json_parsed(text) {
                Ok(JsonView::Object(fields)) => !fields.contains_key("user_id"@)
                    || !(fields["user_id"@] is Str),
                _ => true,
            }
        },
        is_connected(server, app_id, id),
        server.spaces[app_id].sockets[id].open,
    ensures
        ended(
            server,
            app_id,
            id,
            "pusher:subscribe"@,
            message.channel,
            if server.apps.contains_key(app_id) {
                ErrorView::ChannelError("Failed to subscribe"@)
            } else {
                ErrorView::InvalidAppKey
            },
            r,
            after,
        ),
        other != id ==> outbox(after, app_id, other) == outbox(server, app_id, other),
{
    let data = message.data;
    lemma_protocol_events_differ();
    let (s, mid) = lemma_subscribed(
        server,
        app_id,
        app_key,
        id,
        message,
        structured,
        r,
        after,
    );
    lemma_presence_prefix(channel);
    reveal_strlit(":");
    reveal_strlit("");
    if server.apps.contains_key(app_id) {
        assert(extra["auth"@]->Str_0.len() > 0);
        assert(authentic(server.apps[app_id], id, data));
    }
    let error = s->Err_0@;
    lemma_ended(mid, server, app_id, id, "pusher:subscribe"@, message.channel, error, r, after);
}

/// The users that are noted on a presence channel: a signed subscription notes its user with what
/// the user told of itself, and one that leaves is struck out; the others stay as they are.
pub proof fn users_of_a_channel_are_noted_and_struck_out(
    ns: NamespaceView,
    channel: Seq<char>,
    id: Seq<char>,
    text: Seq<char>,
    user_data: Option<Seq<char>>,
    extra: Map<Seq<char>, JsonView>,
    fields: Map<Seq<char>, JsonView>,
    user_id: Seq<char>,
    info: JsonView,
    u: Seq<char>,
)
    requires
        "presence-"@.is_prefix_of(channel),
        json_parsed(text) == Ok::<JsonView, Seq<char>>(JsonView::Object(fields)),
        fields.contains_key("user_id"@),
        fields["user_id"@] == JsonView::Str(user_id),
        fields.contains_key("user_info"@),
        fields["user_info"@] == info,
        !ns.room(channel).sockets.contains(id),
    ensures
        ({
            let data = Some(
                DataView::Structured {
                    channel_data: Some(text),
                    channel: Some(channel),
                    user_data,
                    extra,
                },
            );
            let joined = ns.after_join(channel, id, data).room(channel);
            let left = ns.after_leave(channel, id, Some(user_id)).room(channel);
            &&& joined.presence_members matches Some(members)
            &&& members.contains_key(user_id)
            &&& members[user_id] == (MemberView { user_id, user_info: Some(info) })
            &&& u != user_id ==> match ns.room(channel).presence_members {
                Some(before) => members.contains_key(u) == before.contains_key(u) && (
                before.contains_key(u) ==> members[u] == before[u]),
                None => !members.contains_key(u),
            }
            &&& left.presence_members matches Some(rest) ==> !rest.contains_key(user_id)
            &&& u != user_id && left.sockets != Set::<Seq<char>>::empty() ==> match ns.room(
                channel,
            ).presence_members {
                Some(before) => left.presence_members == Some(before.remove(user_id)),
                None => left.presence_members is None,
            }
        }),
{
    lemma_presence_prefix(channel);
}

/// The answer to a subscription: that it succeeded, how many connections are on the channel with it,
/// and on a presence channel who joined. The answer to leaving a channel: whether the connection was
/// on it, how many connections are left, and on a presence channel who left, as noted there.
pub proof fn answers_tell_who_came_and_who_went(
    ns: NamespaceView,
    channel: Seq<char>,
    id: Seq<char>,
    text: Seq<char>,
    user_data: Option<Seq<char>>,
    extra: Map<Seq<char>, JsonView>,
    fields: Map<Seq<char>, JsonView>,
    user_id: Seq<char>,
    info: JsonView,
)
    requires
        json_parsed(text) == Ok::<JsonView, Seq<char>>(JsonView::Object(fields)),
        fields.contains_key("user_id"@),
        fields["user_id"@] == JsonView::Str(user_id),
        fields.contains_key("user_info"@),
        fields["user_info"@] == info,
        !ns.room(channel).sockets.contains(id),
    ensures
        ({
            let data = Some(
                DataView::Structured {
                    channel_data: Some(text),
                    channel: Some(channel),
                    user_data,
                    extra,
                },
            );
            let presence = "presence-"@.is_prefix_of(channel);
            &&& ns.join_outcome(channel, id, data, true) matches Ok(answer)
            &&& answer.success
            &&& answer.channel_connections == Some((ns.room(channel).sockets.insert(id).len()) as i32)
            &&& answer.auth_error is None
            &&& answer.error_message is None
            &&& answer.error_code is None
            &&& answer._type is None
            &&& presence ==> {
                &&& answer.member matches Some(m)
                &&& m.user_id == user_id
                &&& m.user_info == info
                &&& m.socket_id == if extra.contains_key("socket_id"@) {
                    match extra["socket_id"@] {
                        JsonView::Str(s) => Some(s),
                        _ => None,
                    }
                } else {
                    None
                }
            }
            &&& !presence ==> answer.member is None
            &&& ns.join_outcome(channel, id, data, false) is Err <==> (presence
                || "private-"@.is_prefix_of(channel))
            &&& ({
                let joined = ns.after_join(channel, id, data);
                let answer = joined.leave_answer(channel, id, Some(user_id));
                &&& answer.left
                &&& answer.remaining_connections == Some(ns.room(channel).sockets.len() as int)
                &&& presence ==> answer.member == Some(
                    PresenceView {
                        user_id,
                        user_info: info,
                        socket_id: Some(id),
                    },
                )
                &&& !presence ==> answer.member is None
            })
            &&& !ns.leave_answer(channel, id, Some(user_id)).left
        }),
{
    lemma_presence_prefix(channel);
    restricted_by_prefix(channel);
    assert(ns.room(channel).sockets.insert(id).remove(id) =~= ns.room(channel).sockets);
}

/// Messages that can be handled: every one that is neither a subscription, nor leaves a channel, nor
/// is a client event; a subscription whose data name a channel and say who joins, of a connection
/// that is not on the channel, or for an application that does not exist; one that leaves a channel
/// that is no presence channel, or any channel over a connection that has joined a presence channel;
/// and every client event over a connection that exists.
pub proof fn ordinary_message_can_be_handled(
    server: ServerView,
    app_id: Seq<char>,
    id: Seq<char>,
    message: MessageView,
    event: Seq<char>,
    channel: Seq<char>,
)
    requires
        message.event == Some(event),
        ({
            ||| event != "pusher:subscribe"@ && event != "pusher:unsubscribe"@
                && !"client-"@.is_prefix_of(event)
            ||| event == "pusher:subscribe"@ && (message.data matches Some(
                DataView::Structured { channel: Some(name), channel_data: Some(_), .. },
            ) && name == channel) && (!server.apps.contains_key(app_id) || !is_on(
                server,
                app_id,
                channel,
                id,
            ))
            ||| event == "pusher:subscribe"@ && (message.data matches Some(
                DataView::Structured { channel: Some(name), .. },
            ) && name == channel) && !"presence-"@.is_prefix_of(channel)
            ||| event == "pusher:unsubscribe"@ && message.channel == Some(channel)
                && !"presence-"@.is_prefix_of(channel)
            ||| event == "pusher:unsubscribe"@ && message.channel == Some(channel)
                && is_connected(server, app_id, id)
                && server.spaces[app_id].sockets[id].state.presence is Some
            ||| "client-"@.is_prefix_of(event) && is_connected(server, app_id, id)
        }),
    ensures
        server.can_handle(app_id, id, message),
{
    lemma_protocol_events_differ();
    lemma_presence_prefix(channel);
    if "client-"@.is_prefix_of(event) {
        lemma_client_events_are_no_protocol_events(event);
    }
}

/// Messages that cannot be handled: a subscription whose data name no channel, one to a presence
/// channel that would have its signature looked at and does not say who joins, and one that leaves no
/// channel, or a presence channel where none was joined.
pub proof fn incomplete_message_cannot_be_handled(
    server: ServerView,
    app_id: Seq<char>,
    id: Seq<char>,
    message: MessageView,
    user_data: Option<Seq<char>>,
    extra: Map<Seq<char>, JsonView>,
    channel: Seq<char>,
)
    requires
        ({
            ||| message.event == Some("pusher:subscribe"@) && message.data is None
            ||| message.event == Some("pusher:subscribe"@) && message.data == Some(
                DataView::Structured { channel_data: None, channel: None, user_data, extra },
            )
            ||| message.event == Some("pusher:subscribe"@) && message.data == Some(
                DataView::Structured {
                    channel_data: None,
                    channel: Some(channel),
                    user_data,
                    extra,
                },
            ) && "presence-"@.is_prefix_of(channel) && server.apps.contains_key(app_id)
                && extra.contains_key("auth"@) && (extra["auth"@] matches JsonView::Str(given)
                && given.len() > 0)
            ||| message.event == Some("pusher:unsubscribe"@) && message.channel is None
            ||| message.event == Some("pusher:unsubscribe"@) && message.channel == Some(channel)
                && "presence-"@.is_prefix_of(channel) && !is_connected(server, app_id, id)
        }),
    ensures
        !server.can_handle(app_id, id, message),
{
    lemma_protocol_events_differ();
    lemma_presence_prefix(channel);
    reveal_strlit("");
}

/// Whether some connection that a message to a channel goes to takes no messages.
pub open spec fn one_refuses(
    server: ServerView,
    app_id: Seq<char>,
    channel: Seq<char>,
    id: Seq<char>,
    closed: Seq<char>,
) -> bool {
    &&& closed != id
    &&& is_connected(server, app_id, closed)
    &&& is_on(server, app_id, channel, closed)
    &&& !server.spaces[app_id].sockets[closed].open
}

/// A message to a channel that a connection refused has reached no connection but those on the channel,
/// and not the one that it excepts; each of these has got it once, or not at all.
proof fn lemma_refused(
    server: ServerView,
    app_id: Seq<char>,
    channel: Seq<char>,
    message: OutgoingView,
    id: Seq<char>,
    after: ServerView,
    x: Seq<char>,
)
    requires
        server.broadcast_failed(app_id, channel, message, Some(id), after),
        is_connected(server, app_id, x),
    ensures
        is_connected(after, app_id, x),
        after.spaces[app_id].sockets[x].open == server.spaces[app_id].sockets[x].open,
        outbox(after, app_id, x) == outbox(server, app_id, x) || (x != id && is_on(
            server,
            app_id,
            channel,
            x,
        ) && outbox(after, app_id, x) == outbox(server, app_id, x).push(
            FrameView::Text(message),
        )),
        forall|c: Seq<char>, y: Seq<char>| #[trigger]
            is_on(after, app_id, c, y) == is_on(server, app_id, c, y),
{
    let ns = server.space(app_id);
    let part = choose|part: NamespaceView| #[trigger]
        ns.broadcast_in_part(channel, message, Some(id), part) && after == server.with_space(
            app_id,
            part,
        );
    let got = choose|got: Set<Seq<char>>|
        got.subset_of(ns.targets(channel, Some(id))) && part == #[trigger] ns.touched(
            channel,
        ).handed(got, FrameView::Text(message));
    if got.contains(x) {
        assert(ns.targets(channel, Some(id)).contains(x));
    }
    assert forall|c: Seq<char>, y: Seq<char>| #[trigger]
        is_on(after, app_id, c, y) == is_on(server, app_id, c, y) by {
        assert(part.room(c).sockets == ns.room(c).sockets);
    }
}

/// A client event that a connection on the channel refuses ends the connection that sent it, which
/// is told why. The others on the channel have got it once, or not at all; nobody else gets anything.
pub proof fn refused_client_event_ends_the_connection(
    server: ServerView,
    app_id: Seq<char>,
    app_key: Seq<char>,
    id: Seq<char>,
    message: MessageView,
    structured: JsonView,
    r: Handled,
    after: ServerView,
    event: Seq<char>,
    channel: Seq<char>,
    app: AppView,
    closed: Seq<char>,
    other: Seq<char>,
)
    requires
        server.handles(app_id, app_key, id, message, structured, r, after),
        message.event == Some(event),
        "client-"@.is_prefix_of(event),
        is_connected(server, app_id, id),
        server.spaces[app_id].sockets[id].open,
        message.channel == Some(channel),
        channel != "private-encrypted"@,
        "private-"@.is_prefix_of(channel) || "presence-"@.is_prefix_of(channel),
        server.spaces[app_id].sockets[id].state.app == Some(app),
        forall|a: Seq<char>| #[trigger]
            server.apps.contains_key(a) && server.apps[a].key == app.key ==> server.apps[a] == app,
        exists|a: Seq<char>| #[trigger] server.apps.contains_key(a) && server.apps[a] == app,
        app.enable_client_messages,
        is_on(server, app_id, channel, id),
        one_refuses(server, app_id, channel, id, closed),
        is_connected(server, app_id, other),
        other != id,
    ensures
        ended(
            server,
            app_id,
            id,
            event,
            Some(channel),
            ErrorView::ConnectionError("Failed to send message: channel closed"@),
            r,
            after,
        ),
        !is_on(server, app_id, channel, other) ==> outbox(after, app_id, other) == outbox(
            server,
            app_id,
            other,
        ),
        outbox(after, app_id, other).len() <= outbox(server, app_id, other).len() + 1,
{
    lemma_client_events_are_no_protocol_events(event);
    lemma_presence_prefix(channel);
    let data = client_data(message.data, structured);
    let (s, mid) = lemma_client_event_given(
        server,
        app_id,
        app_key,
        id,
        message,
        structured,
        r,
        after,
    );
    let key = server.space(app_id).sockets[id].state.app_key();
    let may = choose|may: bool| #[trigger]
        client_events_allowed(server.apps, key, may)
            && server.client_event_sent(app_id, id, event, channel, data, may, s, mid);
    assert(may);
    assert(server.space(app_id).targets(channel, Some(id)).contains(closed));
    let told = channel_event(Some(event), channel, data);
    lemma_refused(server, app_id, channel, told, id, mid, id);
    lemma_refused(server, app_id, channel, told, id, mid, other);
    lemma_ended(mid, server, app_id, id, event, message.channel, s->Err_0@, r, after);
}

/// A client event over a connection whose application is registered no more, or never was, is not
/// sent, and ends the connection.
pub proof fn client_event_without_application_ends_the_connection(
    server: ServerView,
    app_id: Seq<char>,
    app_key: Seq<char>,
    id: Seq<char>,
    message: MessageView,
    structured: JsonView,
    r: Handled,
    after: ServerView,
    event: Seq<char>,
    channel: Seq<char>,
    key: Seq<char>,
    other: Seq<char>,
)
    requires
        server.handles(app_id, app_key, id, message, structured, r, after),
        message.event == Some(event),
        "client-"@.is_prefix_of(event),
        is_connected(server, app_id, id),
        server.spaces[app_id].sockets[id].open,
        message.channel == Some(channel),
        channel != "private-encrypted"@,
        "private-"@.is_prefix_of(channel) || "presence-"@.is_prefix_of(channel),
        match server.spaces[app_id].sockets[id].state.app {
            Some(app) => app.key == key,
            None => key.len() == 0,
        },
        forall|a: Seq<char>| #[trigger] server.apps.contains_key(a) ==> server.apps[a].key != key,
    ensures
        ended(
            server,
            app_id,
            id,
            event,
            Some(channel),
            ErrorView::ClientEventError("Client events are not enabled for this app"@),
            r,
            after,
        ),
        other != id ==> outbox(after, app_id, other) == outbox(server, app_id, other),
{
    lemma_client_events_are_no_protocol_events(event);
    lemma_presence_prefix(channel);
    let data = client_data(message.data, structured);
    let (s, mid) = lemma_client_event_given(
        server,
        app_id,
        app_key,
        id,
        message,
        structured,
        r,
        after,
    );
    let held = server.space(app_id).sockets[id].state.app_key();
    assert(held =~= key);
    let may = choose|may: bool| #[trigger]
        client_events_allowed(server.apps, held, may)
            && server.client_event_sent(app_id, id, event, channel, data, may, s, mid);
    assert(!may);
    lemma_ended(server, server, app_id, id, event, message.channel, s->Err_0@, r, after);
}

/// A signed subscription to a presence channel of which a connection refuses to be told ends the
/// connection that subscribed, which is told why. The others on the channel were told once, or not at
/// all; nobody else is told anything.
pub proof fn refused_announcement_ends_the_connection(
    server: ServerView,
    app_id: Seq<char>,
    app_key: Seq<char>,
    id: Seq<char>,
    message: MessageView,
    structured: JsonView,
    r: Handled,
    after: ServerView,
    channel: Seq<char>,
    text: Seq<char>,
    user_data: Option<Seq<char>>,
    extra: Map<Seq<char>, JsonView>,
    fields: Map<Seq<char>, JsonView>,
    user_id: Seq<char>,
    closed: Seq<char>,
    other: Seq<char>,
)
    requires
        server.handles(app_id, app_key, id, message, structured, r, after),
        message.event == Some("pusher:subscribe"@),
        message.data == Some(
            DataView::Structured {
                channel_data: Some(text),
                channel: Some(channel),
                user_data,
                extra,
            },
        ),
        server.apps.contains_key(app_id),
        "presence-"@.is_prefix_of(channel),
        extra.contains_key("auth"@),
        extra["auth"@] == JsonView::Str(
            server.apps[app_id].key + ":"@ + signature(
                server.apps[app_id].secret,
                id + ":"@ + channel + ":"@ + text,
            ),
        ),
        json_parsed(text) == Ok::<JsonView, Seq<char>>(JsonView::Object(fields)),
        fields.contains_key("user_id"@),
        fields["user_id"@] == JsonView::Str(user_id),
        is_connected(server, app_id, id),
        server.spaces[app_id].sockets[id].open,
        !is_on(server, app_id, channel, id),
        one_refuses(server, app_id, channel, id, closed),
        is_connected(server, app_id, other),
        other != id,
    ensures
        ended(
            server,
            app_id,
            id,
            "pusher:subscribe"@,
            message.channel,
            ErrorView::ConnectionError("Failed to send message: channel closed"@),
            r,
            after,
        ),
        !is_on(server, app_id, channel, other) ==> outbox(after, app_id, other) == outbox(
            server,
            app_id,
            other,
        ),
        outbox(after, app_id, other).len() <= outbox(server, app_id, other).len() + 1,
{
    let data = message.data;
    lemma_protocol_events_differ();
    let (s, mid) = lemma_subscribed(
        server,
        app_id,
        app_key,
        id,
        message,
        structured,
        r,
        after,
    );
    lemma_presence_prefix(channel);
    reveal_strlit(":");
    reveal_strlit("");
    assert(extra["auth"@]->Str_0.len() > 0);
    assert(authentic(server.apps[app_id], id, data));
    let before = server.space(app_id);
    let member = presence_data(data)->Ok_0;
    let noted = before.after_join(channel, id, data).noted(id, channel, Some(member));
    assert(noted.room(channel).sockets =~= before.room(channel).sockets.insert(id));
    assert(noted.targets(channel, Some(id)).contains(closed));
    let start = server.with_space(app_id, noted);
    let told = member_added(channel, member);
    lemma_refused(start, app_id, channel, told, id, mid, id);
    lemma_refused(start, app_id, channel, told, id, mid, other);
    lemma_ended(mid, server, app_id, id, "pusher:subscribe"@, message.channel, s->Err_0@, r, after);
}

/// A connection that leaves a presence channel is off it also where another connection refuses to be
/// told; then the other servers are not told.
pub proof fn refused_goodbye_is_not_published(
    server: ServerView,
    app_id: Seq<char>,
    app_key: Seq<char>,
    id: Seq<char>,
    message: MessageView,
    structured: JsonView,
    r: Handled,
    after: ServerView,
    channel: Seq<char>,
    known: Map<Seq<char>, MemberView>,
    closed: Seq<char>,
)
    requires
        server.handles(app_id, app_key, id, message, structured, r, after),
        message.event == Some("pusher:unsubscribe"@),
        message.channel == Some(channel),
        "presence-"@.is_prefix_of(channel),
        is_connected(server, app_id, id),
        server.spaces[app_id].sockets[id].state.presence == Some(known),
    ensures
        known.contains_key(channel) && one_refuses(server, app_id, channel, id, closed) ==> r is Done
            && !is_on(after, app_id, channel, id) && is_connected(after, app_id, id),
        !known.contains_key(channel) ==> r is Done && after.spaces == server.spaces,
{
    lemma_protocol_events_differ();
    lemma_presence_prefix(channel);
    let ns = server.space(app_id);
    if known.contains_key(channel) && one_refuses(server, app_id, channel, id, closed) {
        let user_id = known[channel].user_id;
        let left = ns.after_leave(channel, id, Some(user_id));
        let mid = left.with_conn(id, ns.sockets[id].struck(channel));
        let rest = ns.room(channel).exited(channel, id, Some(user_id)).sockets;
        assert(rest == ns.room(channel).sockets.remove(id));
        assert(mid.room(channel).sockets == rest);
        assert(mid.targets(channel, Some(id)).contains(closed));
        let start = server.with_space(app_id, mid);
        let told = OutgoingView::MemberRemoved { channel, user_id };
        lemma_refused(start, app_id, channel, told, id, after, id);
        assert(is_on(after, app_id, channel, id) == is_on(start, app_id, channel, id));
    } else if !known.contains_key(channel) {
        assert(after.spaces =~= server.spaces);
    }
}

/// Where a connection refuses to be told that a user is gone, the attempt to leave the channel ends
/// with an error; the connection that closes is off the channel.
pub proof fn refused_departure_is_an_error(
    server: ServerView,
    app_id: Seq<char>,
    id: Seq<char>,
    user_id: Seq<char>,
    channel: Seq<char>,
    r: Result<Departed>,
    after: ServerView,
    closed: Seq<char>,
)
    requires
        server.leaves(app_id, id, Some(user_id), channel, r, after),
        "presence-"@.is_prefix_of(channel),
        !(exists|x: Seq<char>| x != id && #[trigger] tells_of(server, app_id, channel, x, user_id)),
        one_refuses(server, app_id, channel, id, closed),
    ensures
        r matches Err(e) && e@ == ErrorView::ConnectionError(
            "Failed to send message: channel closed"@,
        ),
        !is_on(after, app_id, channel, id),
{
    lemma_presence_prefix(channel);
    let ns = server.space(app_id);
    let left = ns.after_leave(channel, id, Some(user_id));
    let mid = ns.abandoned(channel, id, Some(user_id));
    let rest = ns.room(channel).exited(channel, id, Some(user_id)).sockets;
    assert(rest == ns.room(channel).sockets.remove(id));
    assert(left.room(channel).sockets == rest);
    assert(mid.room(channel).sockets == rest);
    assert(mid.sockets == ns.sockets);
    if left.still_there(channel, user_id) {
        let x = choose|x: Seq<char>|
            (#[trigger] left.told_by(channel, x)) is Some && left.told_by(channel, x)->0.user_id
                == user_id;
        assert(x != id && tells_of(server, app_id, channel, x, user_id));
    }
    assert(mid.targets(channel, Some(id)).contains(closed));
    let start = server.with_space(app_id, mid);
    let told = OutgoingView::MemberRemoved { channel, user_id };
    lemma_refused(start, app_id, channel, told, id, after, closed);
    assert(is_on(after, app_id, channel, id) == is_on(start, app_id, channel, id));
}

/// A sign-in whose data are a string: the string stands for the user's data and for the signature.
pub proof fn sign_in_string_stands_for_both(
    server: ServerView,
    app_id: Seq<char>,
    app_key: Seq<char>,
    id: Seq<char>,
    message: MessageView,
    structured: JsonView,
    r: Handled,
    after: ServerView,
    s: Seq<char>,
)
    requires
        server.handles(app_id, app_key, id, message, structured, r, after),
        message.event == Some("pusher:signin"@),
        message.data == Some(DataView::String(s)),
        server.apps.contains_key(app_key),
        is_connected(server, app_id, id),
        server.spaces[app_id].sockets[id].open,
    ensures
        json_parsed(s) is Ok && s == signature(
            server.apps[app_key].secret,
            id + "::user::"@ + s,
        ) ==> r is Done && after.spaces[app_id].sockets[id].state.user == Some(json_parsed(s)->Ok_0),
        json_parsed(s) is Ok && s != signature(
            server.apps[app_key].secret,
            id + "::user::"@ + s,
        ) ==> ended(
            server,
            app_id,
            id,
            "pusher:signin"@,
            message.channel,
            ErrorView::AuthError("Connection not authorized."@),
            r,
            after,
        ),
        json_parsed(s) matches Err(why) ==> ended(
            server,
            app_id,
            id,
            "pusher:signin"@,
            message.channel,
            ErrorView::AuthError("Invalid user data: "@ + why),
            r,
            after,
        ),
{
    lemma_protocol_events_differ();
    if json_parsed(s) is Err {
        lemma_ended(
            server,
            server,
            app_id,
            id,
            "pusher:signin"@,
            message.channel,
            ErrorView::AuthError("Invalid user data: "@ + json_parsed(s)->Err_0),
            r,
            after,
        );
    } else if s != signature(server.apps[app_key].secret, id + "::user::"@ + s) {
        lemma_ended(
            server,
            server,
            app_id,
            id,
            "pusher:signin"@,
            message.channel,
            ErrorView::AuthError("Connection not authorized."@),
            r,
            after,
        );
    }
}

/// A subscription whose data are a JSON object that names a private or presence channel, and holds no
/// signature, ends the connection.
pub proof fn json_subscription_without_signature_ends_the_connection(
    server: ServerView,
    app_id: Seq<char>,
    app_key: Seq<char>,
    id: Seq<char>,
    message: MessageView,
    structured: JsonView,
    r: Handled,
    after: ServerView,
    fields: Map<Seq<char>, JsonView>,
    channel: Seq<char>,
)
    requires
        server.handles(app_id, app_key, id, message, structured, r, after),
        message.event == Some("pusher:subscribe"@),
        message.data == Some(DataView::Json(JsonView::Object(fields))),
        fields.contains_key("channel"@),
        fields["channel"@] == JsonView::Str(channel),
        "presence-"@.is_prefix_of(channel) || "private-"@.is_prefix_of(channel),
        !fields.contains_key("auth"@) || !(fields["auth"@] is Str),
        server.apps.contains_key(app_id),
        is_connected(server, app_id, id),
        server.spaces[app_id].sockets[id].open,
    ensures
        ended(
            server,
            app_id,
            id,
            "pusher:subscribe"@,
            message.channel,
            ErrorView::AuthError("Authentication required"@),
            r,
            after,
        ),
{
    lemma_protocol_events_differ();
    restricted_by_prefix(channel);
    let (s, mid) = lemma_subscribed(
        server,
        app_id,
        app_key,
        id,
        message,
        structured,
        r,
        after,
    );
    lemma_ended(
        server,
        server,
        app_id,
        id,
        "pusher:subscribe"@,
        message.channel,
        s->Err_0@,
        r,
        after,
    );
}

/// The failure of an event over a connection that takes no messages takes the connection out with
/// what it has still to write, and nothing more; over one that does not exist there is nothing to take
/// out.
pub proof fn failure_over_a_lost_connection(
    server: ServerView,
    app_id: Seq<char>,
    id: Seq<char>,
    event: Seq<char>,
    channel: Option<Seq<char>>,
    error: ErrorView,
    r: Handled,
    after: ServerView,
    other: Seq<char>,
)
    requires
        server.fails(app_id, id, event, channel, error, r, after),
    ensures
        r matches Handled::Failed { error: reported, .. } && reported@
            == ErrorView::ClientEventError("Failed to handle event: "@ + event),
        !is_connected(server, app_id, id) ==> (r matches Handled::Failed { gone, .. } && gone
            is None),
        is_connected(server, app_id, id) && !server.spaces[app_id].sockets[id].open ==> (
        r matches Handled::Failed { gone: Some(conn), .. } && conn@.outbox == outbox(
            server,
            app_id,
            id,
        )),
        !is_connected(after, app_id, id),
        other != id ==> outbox(after, app_id, other) == outbox(server, app_id, other),
{
}

/// Whether two states of a server agree on a connection: on whether it exists, on what is known of it,
/// on the channels that it is on and on the users that have it. What it was sent may differ.
pub open spec fn agree_on(
    a: ServerView,
    b: ServerView,
    app_id: Seq<char>,
    x: Seq<char>,
) -> bool {
    &&& is_connected(a, app_id, x) == is_connected(b, app_id, x)
    &&& is_connected(a, app_id, x) ==> a.spaces[app_id].sockets[x].state
        == b.spaces[app_id].sockets[x].state && a.spaces[app_id].sockets[x].open
        == b.spaces[app_id].sockets[x].open
    &&& forall|c: Seq<char>| #[trigger] is_on(a, app_id, c, x) == is_on(b, app_id, c, x)
    &&& forall|u: Seq<char>| #[trigger]
        a.space(app_id).connections_of(u).contains(x) == b.space(app_id).connections_of(
            u,
        ).contains(x)
}

/// Whether two states of a server are of one server with the same applications.
pub open spec fn same_settings(a: ServerView, b: ServerView) -> bool {
    a.apps == b.apps && a.node == b.node && a.redis_channel == b.redis_channel
}

/// To hand out frames changes nothing but what connections were sent.
proof fn lemma_handed_agree(
    server: ServerView,
    app_id: Seq<char>,
    ns: NamespaceView,
    ids: Set<Seq<char>>,
    frame: FrameView,
    x: Seq<char>,
)
    requires
        ns == server.space(app_id),
    ensures
        agree_on(server, server.with_space(app_id, ns.handed(ids, frame)), app_id, x),
{
    let after = server.with_space(app_id, ns.handed(ids, frame));
    assert forall|c: Seq<char>| #[trigger]
        is_on(server, app_id, c, x) == is_on(after, app_id, c, x) by {
        assert(after.space(app_id).channels == ns.channels);
    }
}

/// A message to a channel changes nothing but what connections were sent.
proof fn lemma_broadcast_agree(
    server: ServerView,
    app_id: Seq<char>,
    channel: Seq<char>,
    message: OutgoingView,
    except: Option<Seq<char>>,
    after: ServerView,
    x: Seq<char>,
)
    requires
        after == server.after_broadcast(app_id, channel, message, except)
            || server.broadcast_failed(app_id, channel, message, except, after),
    ensures
        agree_on(server, after, app_id, x),
        same_settings(server, after),
{
    let ns = server.space(app_id);
    let part = after.space(app_id);
    assert forall|c: Seq<char>| #[trigger]
        is_on(server, app_id, c, x) == is_on(after, app_id, c, x) by {
        assert(after.space(app_id).room(c).sockets == ns.room(c).sockets);
    }
    assert forall|u: Seq<char>| #[trigger]
        server.space(app_id).connections_of(u).contains(x) == after.space(app_id).connections_of(
            u,
        ).contains(x) by {
        assert(part.users == ns.users);
    }
}

/// A failed event changes nothing of the other connections.
proof fn lemma_fails_agree(
    server: ServerView,
    app_id: Seq<char>,
    id: Seq<char>,
    event: Seq<char>,
    channel: Option<Seq<char>>,
    error: ErrorView,
    r: Handled,
    after: ServerView,
    x: Seq<char>,
)
    requires
        server.fails(app_id, id, event, channel, error, r, after),
        x != id,
    ensures
        agree_on(server, after, app_id, x),
        same_settings(server, after),
{
    let told = server.told(app_id, id, OutgoingView::Failure { error, channel });
    let frame = FrameView::Text(OutgoingView::Failure { error, channel });
    lemma_handed_agree(server, app_id, server.space(app_id), set![id], frame, x);
    let ns = told.space(app_id);
    assert forall|c: Seq<char>| #[trigger]
        is_on(server, app_id, c, x) == is_on(after, app_id, c, x) by {
        taken_out_leaves_no_trace(ns, id, x, c, c);
        assert(is_on(server, app_id, c, x) == is_on(told, app_id, c, x));
    }
    assert forall|u: Seq<char>| #[trigger]
        server.space(app_id).connections_of(u).contains(x) == after.space(app_id).connections_of(
            u,
        ).contains(x) by {
        taken_out_leaves_no_trace(ns, id, x, u, u);
        assert(server.space(app_id).connections_of(u).contains(x) == told.space(
            app_id,
        ).connections_of(u).contains(x));
    }
}

/// A subscription changes nothing of the other connections but what they were sent.
proof fn lemma_subscribes_agree(
    server: ServerView,
    app_id: Seq<char>,
    id: Seq<char>,
    data: Option<DataView>,
    r: Result<Option<Announcement>>,
    after: ServerView,
    x: Seq<char>,
)
    requires
        server.subscribes(app_id, id, data, r, after),
        x != id,
    ensures
        agree_on(server, after, app_id, x),
        same_settings(server, after),
{
    let channel = named_channel(data)->0;
    let ns = server.space(app_id);
    let joined = ns.after_join(channel, id, data);
    let member = match ns.join_outcome(channel, id, data, true) {
        Ok(answer) => answer.member,
        Err(_) => None,
    };
    let noted = joined.noted(id, channel, member);
    let a = server.with_space(app_id, joined);
    let b = server.with_space(app_id, noted);
    assert forall|c: Seq<char>| #[trigger]
        is_on(server, app_id, c, x) == is_on(a, app_id, c, x) by {
        assert(joined.room(c).sockets.contains(x) == ns.room(c).sockets.contains(x));
    }
    assert forall|c: Seq<char>| #[trigger]
        is_on(server, app_id, c, x) == is_on(b, app_id, c, x) by {
        assert(is_on(a, app_id, c, x) == is_on(b, app_id, c, x));
    }
    assert(joined.users == ns.users && noted.users == ns.users);
    assert(agree_on(server, a, app_id, x));
    assert(agree_on(server, b, app_id, x));
    let told = OutgoingView::SubscriptionSucceeded { channel, presence: None };
    lemma_handed_agree(b, app_id, noted, set![id], FrameView::Text(told), x);
    if member is Some && channel_type(channel) == ChannelType::Presence && after != a && after
        != server {
        let added = member_added(channel, member->0);
        lemma_broadcast_agree(b, app_id, channel, added, Some(id), after, x);
    }
}

/// To leave a channel changes nothing of the other connections but what they were sent.
proof fn lemma_unsubscribes_agree(
    server: ServerView,
    app_id: Seq<char>,
    id: Seq<char>,
    channel: Seq<char>,
    r: Option<Publication>,
    after: ServerView,
    x: Seq<char>,
)
    requires
        server.unsubscribes(app_id, id, channel, r, after),
        x != id,
    ensures
        agree_on(server, after, app_id, x),
        same_settings(server, after),
{
    let ns = server.space(app_id);
    let member = ns.sockets[id].state.member_on(channel);
    let presence = channel_type(channel) == ChannelType::Presence;
    let user_id = if presence && member is Some {
        Some(member->0.user_id)
    } else {
        None
    };
    let left = ns.after_leave(channel, id, user_id);
    let rest = ns.room(channel).exited(channel, id, user_id).sockets;
    assert(rest == ns.room(channel).sockets.remove(id));
    let mid = left.with_conn(id, ns.sockets[id].struck(channel));
    let a = server.with_space(app_id, left);
    let b = server.with_space(app_id, mid);
    if rest == Set::<Seq<char>>::empty() {
        assert(!rest.contains(x));
    }
    assert forall|c: Seq<char>| #[trigger]
        is_on(server, app_id, c, x) == is_on(a, app_id, c, x) by {
        assert(left.room(c).sockets.contains(x) == ns.room(c).sockets.contains(x));
    }
    assert forall|c: Seq<char>| #[trigger]
        is_on(server, app_id, c, x) == is_on(b, app_id, c, x) by {
        assert(is_on(a, app_id, c, x) == is_on(b, app_id, c, x));
    }
    assert(left.users == ns.users && mid.users == ns.users);
    assert(agree_on(server, a, app_id, x));
    assert(agree_on(server, b, app_id, x));
    if presence && member is Some {
        let told = member_removed(channel, member->0.user_id);
        lemma_broadcast_agree(b, app_id, channel, told, Some(id), after, x);
    } else if presence {
        assert(agree_on(server, after, app_id, x));
    }
}

/// Whatever message comes in over a connection, of every other connection nothing changes but what it
/// was sent: it exists as before, what is known of it is as before, it is on the same channels, and the
/// same users have it. The server's applications, its name and its Redis channel stay.
pub proof fn message_concerns_its_own_connection(
    server: ServerView,
    app_id: Seq<char>,
    app_key: Seq<char>,
    id: Seq<char>,
    message: MessageView,
    structured: JsonView,
    r: Handled,
    after: ServerView,
    x: Seq<char>,
)
    requires
        server.handles(app_id, app_key, id, message, structured, r, after),
        x != id,
    ensures
        agree_on(server, after, app_id, x),
        same_settings(server, after),
{
    lemma_protocol_events_differ();
    if message.event is Some {
        let event = message.event->0;
        let channel = message.channel;
        if event == "pusher:ping"@ {
            let pong = bare_event("pusher:pong"@, None);
            let mid = server.told(app_id, id, pong);
            let frame = FrameView::Text(pong);
            lemma_handed_agree(server, app_id, server.space(app_id), set![id], frame, x);
            if server.space(app_id).send_outcome(id) is Err {
                let e = server.space(app_id).send_outcome(id)->Err_0;
                lemma_fails_agree(mid, app_id, id, event, channel, e, r, after, x);
            }
        } else if event == "pusher:subscribe"@ {
            let (s, mid) = lemma_subscribed(
                server,
                app_id,
                app_key,
                id,
                message,
                structured,
                r,
                after,
            );
            lemma_subscribes_agree(server, app_id, id, message.data, s, mid, x);
            if s is Err {
                lemma_fails_agree(mid, app_id, id, event, channel, s->Err_0@, r, after, x);
            }
        } else if event == "pusher:unsubscribe"@ {
            let left = match r {
                Handled::Tell(p) => Some(p),
                _ => None,
            };
            lemma_unsubscribes_agree(server, app_id, id, channel->0, left, after, x);
        } else if event == "pusher:signin"@ {
            let mid = server.after_sign_in(app_id, app_key, id, message.data);
            let ns = server.space(app_id);
            let user = signed_user(
                server.apps,
                id,
                app_key,
                message.data,
            );
            if user is Ok && ns.sockets.contains_key(id) {
                let noted = ns.signed(id, user->Ok_0);
                let a = server.with_space(app_id, noted);
                assert(agree_on(server, a, app_id, x));
                let told = bare_event(
                    "pusher:signin_success"@,
                    Some(DataView::Json(user->Ok_0)),
                );
                lemma_handed_agree(a, app_id, noted, set![id], FrameView::Text(told), x);
            }
            assert(agree_on(server, mid, app_id, x));
            let result = server.sign_in_outcome(app_id, app_key, id, message.data);
            if result is Err {
                lemma_fails_agree(mid, app_id, id, event, channel, result->Err_0, r, after, x);
            }
        } else if "client-"@.is_prefix_of(event) {
            let data = client_data(message.data, structured);
            let (s, mid) = lemma_client_event_given(
                server,
                app_id,
                app_key,
                id,
                message,
                structured,
                r,
                after,
            );
            if client_event_refusal(event, channel) is None {
                let name = channel->0;
                let told = channel_event(Some(event), name, data);
                let ns = server.space(app_id);
                let touched = server.with_space(app_id, ns.touched(name));
                assert forall|c: Seq<char>| #[trigger]
                    is_on(server, app_id, c, x) == is_on(touched, app_id, c, x) by {
                    assert(ns.touched(name).room(c).sockets == ns.room(c).sockets);
                }
                assert(agree_on(server, touched, app_id, x));
                if mid != server && mid != touched {
                    lemma_broadcast_agree(server, app_id, name, told, Some(id), mid, x);
                }
            }
            assert(agree_on(server, mid, app_id, x));
            if s is Err {
                lemma_fails_agree(mid, app_id, id, event, channel, s->Err_0@, r, after, x);
            }
        }
    }
}

/// An event that came in over HTTP changes nothing but what connections were sent.
pub proof fn api_event_changes_only_what_was_sent(
    server: ServerView,
    app_id: Seq<char>,
    except: Option<Seq<char>>,
    name: Option<Seq<char>>,
    data: Option<JsonView>,
    channel: Seq<char>,
    r: Option<Publication>,
    after: ServerView,
    x: Seq<char>,
)
    requires
        server.sends(app_id, except, name, data, channel, r, after),
    ensures
        agree_on(server, after, app_id, x),
        same_settings(server, after),
{
    let value = match data {
        Some(v) => v,
        None => JsonView::Null,
    };
    let told = channel_event(name, channel, value);
    lemma_broadcast_agree(server, app_id, channel, told, except, after, x);
}

/// A connection that closes and leaves a channel changes nothing of the other connections but what they
/// were sent, and of itself only that it is off the channel. No channel but this one comes or goes.
pub proof fn departure_concerns_its_own_connection(
    server: ServerView,
    app_id: Seq<char>,
    id: Seq<char>,
    user_id: Option<Seq<char>>,
    channel: Seq<char>,
    r: Result<Departed>,
    after: ServerView,
    x: Seq<char>,
    c: Seq<char>,
)
    requires
        server.leaves(app_id, id, user_id, channel, r, after),
    ensures
        same_settings(server, after),
        x != id ==> agree_on(server, after, app_id, x),
        is_connected(after, app_id, id) == is_connected(server, app_id, id),
        is_connected(server, app_id, id) ==> after.spaces[app_id].sockets[id]
            == server.spaces[app_id].sockets[id],
        c != channel ==> is_on(after, app_id, c, id) == is_on(server, app_id, c, id),
        c != channel ==> after.space(app_id).channels.contains_key(c) == server.space(
            app_id,
        ).channels.contains_key(c),
{
    let ns = server.space(app_id);
    let rest = ns.room(channel).exited(channel, id, user_id).sockets;
    assert(rest == ns.room(channel).sockets.remove(id));
    let abandoned = ns.abandoned(channel, id, user_id);
    let mid = server.with_space(app_id, abandoned);
    if rest == Set::<Seq<char>>::empty() {
        assert(!rest.contains(x));
    }
    assert forall|k: Seq<char>| x != id implies #[trigger]
        is_on(server, app_id, k, x) == is_on(mid, app_id, k, x) by {
        assert(abandoned.room(k).sockets.contains(x) == ns.room(k).sockets.contains(x));
    }
    assert(abandoned.users == ns.users);
    assert(abandoned.sockets == ns.sockets);
    if ns.missed(channel, id, user_id) {
        let told = member_removed(channel, user_id->0);
        lemma_broadcast_agree(mid, app_id, channel, told, Some(id), after, x);
        lemma_broadcast_agree(mid, app_id, channel, told, Some(id), after, id);
        assert(is_on(after, app_id, c, id) == is_on(mid, app_id, c, id));
        if mid.broadcast_failed(app_id, channel, told, Some(id), after) {
            if is_connected(mid, app_id, id) {
                lemma_refused(mid, app_id, channel, told, id, after, id);
            }
        }
    }
}

} // verus!
