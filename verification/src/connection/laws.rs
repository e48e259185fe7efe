//! What holds of connections, channels and users, whatever comes in.

use vstd::prelude::*;

use crate::app::auth::sign_in_signature;
use crate::app::config::AppView;
use crate::app::memory_app_manager::app_with_id;
use crate::channel::manager::{presence_data, PresenceView};
use crate::channel::types::{channel_type, restricted, ChannelType, MemberView};
use crate::connection::departure::Departed;
use crate::connection::handler::{
    authentic, bare_event, channel_event, client_event_refusal, given_auth, member_added,
    member_removed, named_channel, sign_in_field, signed_user, Announcement, ServerView,
};
use crate::connection::redis_manager::{excepted, publication, Publication};
use crate::connection::session::Handled;
use crate::error::{ErrorView, Result};
use crate::json::JsonView;
use crate::namespace::{NamespaceView, RoomView};
use crate::protocol::{DataView, FrameView, MessageView, OutgoingView};
use crate::table::named_order;
use crate::websocket::ConnView;

verus! {

/// A message to a channel that every connection takes reaches each connection on the channel once,
/// and nobody else; the one it excepts gets nothing. Who is on which channel does not change.
pub proof fn broadcast_reaches_exactly_the_others(
    ns: NamespaceView,
    channel: Seq<char>,
    message: OutgoingView,
    except: Option<Seq<char>>,
    id: Seq<char>,
    c: Seq<char>,
)
    requires
        ns.sockets.contains_key(id),
        ns.all_take(channel, except),
    ensures
        ns.broadcast(channel, message, except).sockets.dom() == ns.sockets.dom(),
        ns.broadcast(channel, message, except).sockets[id] == if ns.room(
            channel,
        ).sockets.contains(id) && except != Some(id) {
            ConnView {
                outbox: ns.sockets[id].outbox.push(FrameView::Text(message)),
                ..ns.sockets[id]
            }
        } else {
            ns.sockets[id]
        },
        ns.broadcast(channel, message, except).room(c) == ns.room(c),
        ns.broadcast(channel, message, except).users == ns.users,
{
    let after = ns.broadcast(channel, message, except);
    assert(after.sockets.dom() =~= ns.sockets.dom());
    if ns.room(channel).sockets.contains(id) && except != Some(id) {
        assert(ns.targets(channel, except).contains(id));
        assert(ns.sockets[id].open);
    }
}

/// A message to a channel that some connection refuses reaches nobody but those that it goes to,
/// and each of these at most once.
pub proof fn refused_broadcast_reaches_no_stranger(
    ns: NamespaceView,
    channel: Seq<char>,
    message: OutgoingView,
    except: Option<Seq<char>>,
    after: NamespaceView,
    id: Seq<char>,
)
    requires
        ns.broadcast_in_part(channel, message, except, after),
        ns.sockets.contains_key(id),
    ensures
        after.sockets.contains_key(id),
        after.sockets[id] == ns.sockets[id] || (ns.targets(channel, except).contains(id)
            && after.sockets[id] == ns.sockets[id].handed(FrameView::Text(message))),
{
}

/// A connection that was taken out leaves no trace: it is on no channel, no user has it, no channel
/// and no user is left without connections, and no other connection is changed.
pub proof fn taken_out_leaves_no_trace(
    ns: NamespaceView,
    id: Seq<char>,
    other: Seq<char>,
    c: Seq<char>,
    u: Seq<char>,
)
    ensures
        !ns.without(set![id]).sockets.contains_key(id),
        !ns.without(set![id]).room(c).sockets.contains(id),
        !ns.without(set![id]).connections_of(u).contains(id),
        ns.without(set![id]).channels.contains_key(c) ==> ns.without(set![id]).room(c).sockets
            != Set::<Seq<char>>::empty(),
        ns.without(set![id]).channels.contains_key(c) ==> ns.without(set![id]).room(
            c,
        ).presence_members == ns.room(c).presence_members,
        ns.without(set![id]).users.contains_key(u) ==> ns.without(set![id]).connections_of(u)
            != Set::<Seq<char>>::empty(),
        other != id ==> {
            &&& ns.without(set![id]).sockets.contains_key(other) == ns.sockets.contains_key(other)
            &&& ns.sockets.contains_key(other) ==> ns.without(set![id]).sockets[other]
                == ns.sockets[other]
            &&& ns.without(set![id]).room(c).sockets.contains(other) == ns.room(
                c,
            ).sockets.contains(other)
            &&& ns.without(set![id]).connections_of(u).contains(other) == ns.connections_of(
                u,
            ).contains(other)
        },
{
    let gone = set![id];
    if ns.channels.contains_key(c) {
        let rest = ns.channels[c].sockets.difference(gone);
        if other != id && ns.channels[c].sockets.contains(other) {
            assert(rest.contains(other));
        }
    }
    if ns.users.contains_key(u) {
        let rest = ns.users[u].difference(gone);
        if other != id && ns.users[u].contains(other) {
            assert(rest.contains(other));
        }
    }
}

/// To join a channel and to leave it again changes nothing, where the connection was not on the
/// channel. A channel that existed without subscribers is gone afterwards.
pub proof fn join_and_leave_restore(ns: NamespaceView, channel: Seq<char>, id: Seq<char>)
    requires
        !ns.room(channel).sockets.contains(id),
        ns.channels.contains_key(channel) ==> ns.room(channel).sockets != Set::<
            Seq<char>,
        >::empty(),
    ensures
        ns.joined(channel, id).left(channel, id) == ns,
{
    let joined = ns.joined(channel, id);
    assert(joined.channels[channel].sockets.remove(id) =~= ns.room(channel).sockets);
    assert(joined.left(channel, id).channels =~= ns.channels);
}

/// A channel that a connection left has subscribers, or is gone.
pub proof fn left_channel_is_not_empty(ns: NamespaceView, channel: Seq<char>, id: Seq<char>)
    ensures
        ns.left(channel, id).channels.contains_key(channel) ==> ns.left(channel, id).room(
            channel,
        ).sockets != Set::<Seq<char>>::empty(),
        !ns.left(channel, id).room(channel).sockets.contains(id),
{
}

/// To note a connection of a user and to strike it out again changes nothing, where the user did not
/// have it, and had one where noted at all.
pub proof fn user_noted_and_struck_out(ns: NamespaceView, user_id: Seq<char>, id: Seq<char>)
    requires
        !ns.connections_of(user_id).contains(id),
        ns.users.contains_key(user_id) ==> ns.connections_of(user_id) != Set::<Seq<char>>::empty(),
    ensures
        ns.with_user(user_id, id).without_user(user_id, id) == ns,
{
    let noted = ns.with_user(user_id, id);
    assert(noted.users[user_id].remove(id) =~= ns.connections_of(user_id));
    assert(noted.without_user(user_id, id).users =~= ns.users);
}

/// To subscribe to a channel that is no presence channel and to leave it again changes nothing,
/// where the connection was not on the channel, and the channel had subscribers if it existed.
pub proof fn subscribe_and_unsubscribe_restore(
    ns: NamespaceView,
    channel: Seq<char>,
    id: Seq<char>,
    data: Option<DataView>,
    user_id: Option<Seq<char>>,
)
    requires
        channel_type(channel) != ChannelType::Presence,
        !ns.room(channel).sockets.contains(id),
        ns.channels.contains_key(channel) ==> ns.room(channel).sockets != Set::<
            Seq<char>,
        >::empty(),
    ensures
        ns.after_join(channel, id, data).after_leave(channel, id, user_id) == ns,
{
    let joined = ns.after_join(channel, id, data);
    let room = ns.room(channel);
    let exited = joined.room(channel).exited(channel, id, user_id);
    assert(exited.sockets =~= room.sockets);
    assert(exited.presence_members == room.presence_members);
    assert(exited =~= room);
    assert(joined.after_leave(channel, id, user_id).channels =~= ns.channels);
}

/// The users that are noted on a channel.
pub open spec fn noted_members(room: RoomView) -> Map<Seq<char>, MemberView> {
    match room.presence_members {
        Some(map) => map,
        None => Map::empty(),
    }
}

/// To join a presence channel as a user that is not on it and to leave it again restores who is on
/// the channel, connections and users alike; a channel that did not exist is gone again.
pub proof fn presence_join_and_leave_restore(
    ns: NamespaceView,
    channel: Seq<char>,
    id: Seq<char>,
    data: Option<DataView>,
    member: PresenceView,
)
    requires
        channel_type(channel) == ChannelType::Presence,
        presence_data(data) == Ok::<PresenceView, ErrorView>(member),
        !ns.room(channel).sockets.contains(id),
        !noted_members(ns.room(channel)).contains_key(member.user_id),
        ns.channels.contains_key(channel) ==> ns.room(channel).sockets != Set::<
            Seq<char>,
        >::empty(),
    ensures
        ({
            let after = ns.after_join(channel, id, data).after_leave(
                channel,
                id,
                Some(member.user_id),
            );
            &&& after.room(channel).sockets == ns.room(channel).sockets
            &&& noted_members(after.room(channel)) == noted_members(ns.room(channel))
            &&& !ns.channels.contains_key(channel) ==> after == ns
        }),
{
    let joined = ns.after_join(channel, id, data);
    let room = ns.room(channel);
    let exited = joined.room(channel).exited(channel, id, Some(member.user_id));
    assert(exited.sockets =~= room.sockets);
    assert(noted_members(exited) =~= noted_members(room));
    if !ns.channels.contains_key(channel) {
        assert(exited.sockets =~= Set::<Seq<char>>::empty());
        assert(joined.after_leave(channel, id, Some(member.user_id)).channels =~= ns.channels);
    }
}

/// A connection that does not give the signature that a subscription needs never gets onto a private
/// or presence channel: the subscription fails, and the server is as it was.
pub proof fn unsigned_subscription_is_refused(
    server: ServerView,
    app_id: Seq<char>,
    id: Seq<char>,
    data: Option<DataView>,
    r: Result<Option<Announcement>>,
    after: ServerView,
)
    requires
        server.subscribes(app_id, id, data, r, after),
        restricted(named_channel(data)->0),
        !authentic(server.apps[app_id], id, data),
    ensures
        r is Err,
        after == server,
{
}

/// A connection that gives the signature that a subscription to a private channel needs gets onto
/// the channel, and is told so.
pub proof fn signed_subscription_is_accepted(
    server: ServerView,
    app_id: Seq<char>,
    id: Seq<char>,
    data: Option<DataView>,
    r: Result<Option<Announcement>>,
    after: ServerView,
)
    requires
        server.subscribes(app_id, id, data, r, after),
        app_with_id(server.apps, app_id) is Some,
        channel_type(named_channel(data)->0) == ChannelType::Private,
        given_auth(data) != ""@,
        authentic(server.apps[app_id], id, data),
        server.space(app_id).sockets.contains_key(id),
        server.space(app_id).sockets[id].open,
    ensures
        r matches Ok(None),
        after.space(app_id).room(named_channel(data)->0).sockets.contains(id),
        after.space(app_id).sockets[id].outbox == server.space(app_id).sockets[id].outbox.push(
            FrameView::Text(
                OutgoingView::SubscriptionSucceeded {
                    channel: named_channel(data)->0,
                    presence: None,
                },
            ),
        ),
        after.space(app_id).sockets[id].state.subscribed_channels.contains(
            named_channel(data)->0,
        ),
{
}

/// A connection that gives the signature that a subscription to a presence channel needs, and says
/// who joins, gets onto the channel. The members that it will be told of hold its user; the others on
/// the channel are told of the user once, and the connection itself is not. The other servers are to
/// be told the same.
pub proof fn presence_subscription_is_announced(
    server: ServerView,
    app_id: Seq<char>,
    id: Seq<char>,
    data: Option<DataView>,
    member: PresenceView,
    r: Result<Option<Announcement>>,
    after: ServerView,
    other: Seq<char>,
)
    requires
        server.subscribes(app_id, id, data, r, after),
        app_with_id(server.apps, app_id) is Some,
        channel_type(named_channel(data)->0) == ChannelType::Presence,
        given_auth(data) != ""@,
        authentic(server.apps[app_id], id, data),
        presence_data(data) == Ok::<PresenceView, ErrorView>(member),
        server.space(app_id).sockets.contains_key(id),
        !server.space(app_id).room(named_channel(data)->0).sockets.contains(id),
        server.space(app_id).all_take(named_channel(data)->0, Some(id)),
        server.space(app_id).sockets.contains_key(other),
        other != id,
    ensures
        ({
            let channel = named_channel(data)->0;
            let told = FrameView::Text(member_added(channel, member));
            let before = server.space(app_id);
            let now = after.space(app_id);
            &&& r matches Ok(Some(todo))
            &&& todo.channel@ == channel
            &&& todo.publication@ == publication(
                server.node,
                app_id,
                channel,
                member_added(channel, member),
                Some(id),
            )
            &&& todo.members@.ids.contains(member.user_id)
            &&& now.room(channel).sockets.contains(id)
            &&& now.sockets[id].outbox == before.sockets[id].outbox
            &&& now.sockets[other].outbox == if before.room(channel).sockets.contains(other) {
                before.sockets[other].outbox.push(told)
            } else {
                before.sockets[other].outbox
            }
        }),
{
    let channel = named_channel(data)->0;
    let before = server.space(app_id);
    let noted = before.after_join(channel, id, data).noted(id, channel, Some(member));
    assert(noted.room(channel).sockets =~= before.room(channel).sockets.insert(id));
    assert forall|x: Seq<char>| #[trigger] noted.targets(channel, Some(id)).contains(x) implies
        noted.sockets[x].open by {
        assert(before.targets(channel, Some(id)).contains(x));
    }
    assert(noted.all_take(channel, Some(id)));
    let todo = r->Ok_0->0;
    let members = choose|members: Map<Seq<char>, MemberView>| #[trigger]
        noted.are_members(channel, members) && named_order(todo.members@.ids, members.dom())
            && todo.members@.hash == members.map_values(|m: MemberView| m.user_info)
            && todo.members@.count == members.dom().len();
    assert(noted.told_by(channel, id) == Some(member.info()));
    assert(members.dom().contains(member.user_id));
    assert(todo.members@.ids.to_set().contains(member.user_id));
    if before.room(channel).sockets.contains(other) {
        assert(noted.targets(channel, Some(id)).contains(other));
        assert(before.targets(channel, Some(id)).contains(other));
    }
}

/// A public channel is open to every connection of an application.
pub proof fn public_subscription_is_accepted(
    server: ServerView,
    app_id: Seq<char>,
    id: Seq<char>,
    data: Option<DataView>,
    r: Result<Option<Announcement>>,
    after: ServerView,
)
    requires
        server.subscribes(app_id, id, data, r, after),
        app_with_id(server.apps, app_id) is Some,
        !restricted(named_channel(data)->0),
    ensures
        r matches Ok(None),
        after.space(app_id).room(named_channel(data)->0).sockets.contains(id),
{
}

/// A client event never comes back to the connection that sent it, and is only sent by a connection
/// that is on the channel.
pub proof fn client_event_is_not_echoed(
    server: ServerView,
    app_id: Seq<char>,
    id: Seq<char>,
    event: Seq<char>,
    channel: Option<Seq<char>>,
    data: JsonView,
    r: Result<Publication>,
    after: ServerView,
)
    requires
        server.client_event_handled(app_id, id, event, channel, data, r, after),
        server.space(app_id).sockets.contains_key(id),
    ensures
        after.space(app_id).sockets.contains_key(id),
        after.space(app_id).sockets[id] == server.space(app_id).sockets[id],
        r is Ok ==> channel is Some && server.space(app_id).room(channel->0).sockets.contains(id)
            && (channel_type(channel->0) == ChannelType::Private || channel_type(channel->0)
            == ChannelType::Presence),
{
    if client_event_refusal(event, channel) is None {
        let name = channel->0;
        let ns = server.space(app_id);
        let message = channel_event(Some(event), name, data);
        if server.broadcast_failed(app_id, name, message, Some(id), after) {
            let part = choose|part: NamespaceView| #[trigger]
                ns.broadcast_in_part(name, message, Some(id), part) && after
                    == server.with_space(app_id, part);
            assert(!ns.targets(name, Some(id)).contains(id));
        }
        assert(!ns.targets(name, Some(id)).contains(id));
    }
}

/// An event that the protocol does not know changes nothing.
pub proof fn unknown_event_is_ignored(
    server: ServerView,
    app_id: Seq<char>,
    app_key: Seq<char>,
    id: Seq<char>,
    message: MessageView,
    structured: JsonView,
    r: Handled,
    after: ServerView,
)
    requires
        server.handles(app_id, app_key, id, message, structured, r, after),
        message.event matches Some(event) && !"pusher:"@.is_prefix_of(event) && !"client-"@
            .is_prefix_of(event),
    ensures
        r is Done,
        after == server,
{
    reveal_strlit("pusher:");
    reveal_strlit("pusher:ping");
    reveal_strlit("pusher:subscribe");
    reveal_strlit("pusher:unsubscribe");
    reveal_strlit("pusher:signin");
    assert("pusher:"@ =~= "pusher:ping"@.subrange(0, 7));
    assert("pusher:"@ =~= "pusher:subscribe"@.subrange(0, 7));
    assert("pusher:"@ =~= "pusher:unsubscribe"@.subrange(0, 7));
    assert("pusher:"@ =~= "pusher:signin"@.subrange(0, 7));
}

/// A connection whose message failed is gone: it is not connected and on no channel. Before it went,
/// it was told of the error, then that it was disconnected, and closed.
pub proof fn failed_message_ends_the_connection(
    server: ServerView,
    app_id: Seq<char>,
    id: Seq<char>,
    event: Seq<char>,
    channel: Option<Seq<char>>,
    error: ErrorView,
    r: Handled,
    after: ServerView,
    c: Seq<char>,
)
    requires
        server.fails(app_id, id, event, channel, error, r, after),
    ensures
        !after.space(app_id).sockets.contains_key(id),
        !after.space(app_id).room(c).sockets.contains(id),
        r matches Handled::Failed { gone, .. } && (gone matches Some(conn) ==> server.space(
            app_id,
        ).sockets.contains_key(id) && (server.space(app_id).sockets[id].open ==> conn@.outbox
            == server.space(app_id).sockets[id].outbox.push(
            FrameView::Text(OutgoingView::Failure { error, channel }),
        ).push(crate::namespace::disconnect_notice()).push(FrameView::Close(4009)))),
        server.space(app_id).sockets.contains_key(id) ==> (r matches Handled::Failed { gone, .. }
            && gone is Some),
{
    let told = server.told(app_id, id, OutgoingView::Failure { error, channel });
    taken_out_leaves_no_trace(told.space(app_id), id, id, c, c);
}

/// A connection that comes in to an application that exists is connected, and the only message that
/// it has got is that it is established.
pub proof fn new_connection_is_established(
    server: ServerView,
    app_id: Seq<char>,
    id: Seq<char>,
)
    requires
        app_with_id(server.apps, app_id) is Some,
    ensures
        ({
            let after = server.admitted(app_id, id).space(app_id);
            &&& after.sockets.contains_key(id)
            &&& after.sockets[id].open
            &&& after.sockets[id].state.app == app_with_id(server.apps, app_id)
            &&& after.sockets[id].outbox == seq![
                FrameView::Text(OutgoingView::ConnectionEstablished { socket_id: id }),
            ]
        }),
{
    let after = server.admitted(app_id, id).space(app_id);
    assert(after.sockets[id].outbox =~= seq![
        FrameView::Text(OutgoingView::ConnectionEstablished { socket_id: id }),
    ]);
}

/// A ping over a connection that takes messages is answered with one pong, and nothing else.
pub proof fn ping_is_answered_with_pong(
    server: ServerView,
    app_id: Seq<char>,
    app_key: Seq<char>,
    id: Seq<char>,
    message: MessageView,
    structured: JsonView,
    r: Handled,
    after: ServerView,
)
    requires
        server.handles(app_id, app_key, id, message, structured, r, after),
        message.event == Some("pusher:ping"@),
        server.space(app_id).sockets.contains_key(id),
        server.space(app_id).sockets[id].open,
    ensures
        r is Done,
        after.space(app_id).sockets[id].outbox == server.space(app_id).sockets[id].outbox.push(
            FrameView::Text(bare_event("pusher:pong"@, None)),
        ),
        after.space(app_id).channels == server.space(app_id).channels,
{
}

/// A message over a connection of one application changes nothing in another: no connection, channel
/// or user of it.
pub proof fn applications_are_separate(
    server: ServerView,
    app_id: Seq<char>,
    app_key: Seq<char>,
    id: Seq<char>,
    message: MessageView,
    structured: JsonView,
    r: Handled,
    after: ServerView,
    other: Seq<char>,
)
    requires
        server.handles(app_id, app_key, id, message, structured, r, after),
        other != app_id,
    ensures
        after.space(other) == server.space(other),
        after.apps == server.apps,
{
}

/// A client event that was sent reaches every other connection on the channel once, and no connection
/// that is not on it.
pub proof fn client_event_reaches_the_others(
    server: ServerView,
    app_id: Seq<char>,
    id: Seq<char>,
    event: Seq<char>,
    channel: Option<Seq<char>>,
    data: JsonView,
    r: Result<Publication>,
    after: ServerView,
    other: Seq<char>,
)
    requires
        server.client_event_handled(app_id, id, event, channel, data, r, after),
        r is Ok,
        server.space(app_id).sockets.contains_key(other),
        other != id,
    ensures
        after.space(app_id).sockets[other].outbox == if server.space(app_id).room(
            channel->0,
        ).sockets.contains(other) {
            server.space(app_id).sockets[other].outbox.push(
                FrameView::Text(channel_event(Some(event), channel->0, data)),
            )
        } else {
            server.space(app_id).sockets[other].outbox
        },
{
    broadcast_reaches_exactly_the_others(
        server.space(app_id),
        channel->0,
        channel_event(Some(event), channel->0, data),
        Some(id),
        other,
        channel->0,
    );
}

/// An event that came in over HTTP for a channel, and was sent, reaches every connection on the
/// channel once, but not the one that it excepts, and no connection that is not on the channel.
pub proof fn api_event_reaches_the_channel(
    server: ServerView,
    app_id: Seq<char>,
    except: Option<Seq<char>>,
    name: Option<Seq<char>>,
    data: JsonView,
    channel: Seq<char>,
    r: Option<Publication>,
    after: ServerView,
    id: Seq<char>,
)
    requires
        server.sends(app_id, except, name, Some(data), channel, r, after),
        r is Some,
        server.space(app_id).sockets.contains_key(id),
    ensures
        after.space(app_id).sockets[id].outbox == if server.space(app_id).room(
            channel,
        ).sockets.contains(id) && except != Some(id) {
            server.space(app_id).sockets[id].outbox.push(
                FrameView::Text(channel_event(name, channel, data)),
            )
        } else {
            server.space(app_id).sockets[id].outbox
        },
{
    broadcast_reaches_exactly_the_others(
        server.space(app_id),
        channel,
        channel_event(name, channel, data),
        except,
        id,
        channel,
    );
}

/// A message that is published reaches, on another server that has the application, every connection
/// on the channel once, but not the one that it excepts, and nobody else.
pub proof fn published_message_reaches_the_channel_elsewhere(
    node: Seq<char>,
    app_id: Seq<char>,
    channel: Seq<char>,
    message: OutgoingView,
    except: Option<Seq<char>>,
    elsewhere: NamespaceView,
    id: Seq<char>,
)
    requires
        except != Some(""@),
        elsewhere.sockets.contains_key(id),
        elsewhere.all_take(channel, except),
    ensures
        ({
            let told = publication(node, app_id, channel, message, except);
            &&& told.node_id == node
            &&& told.app_id == app_id
            &&& told.channel == channel
            &&& told.message == message
            &&& except matches Some(x) ==> told.socket_id == x
            &&& except is None ==> told.socket_id.len() == 0
            &&& elsewhere.broadcast(
                told.channel,
                told.message,
                excepted(told.socket_id),
            ).sockets[id].outbox == if elsewhere.room(channel).sockets.contains(id) && except
                != Some(id) {
                elsewhere.sockets[id].outbox.push(FrameView::Text(message))
            } else {
                elsewhere.sockets[id].outbox
            }
        }),
{
    reveal_strlit("");
    broadcast_reaches_exactly_the_others(elsewhere, channel, message, except, id, channel);
}

/// A connection that left a channel is not on it, and the others are on the channels that they were
/// on. Of a presence channel that holds where the connection had joined it.
pub proof fn connection_that_left_is_off_the_channel(
    server: ServerView,
    app_id: Seq<char>,
    id: Seq<char>,
    channel: Seq<char>,
    r: Option<Publication>,
    after: ServerView,
    c: Seq<char>,
    other: Seq<char>,
)
    requires
        server.unsubscribes(app_id, id, channel, r, after),
        channel_type(channel) == ChannelType::Presence ==> server.space(
            app_id,
        ).sockets[id].state.member_on(channel) is Some,
    ensures
        after.space(app_id).room(c).sockets.contains(other) <==> server.space(app_id).room(
            c,
        ).sockets.contains(other) && !(c == channel && other == id),
{
    let ns = server.space(app_id);
    let user_id = if channel_type(channel) == ChannelType::Presence {
        Some(ns.sockets[id].state.member_on(channel)->0.user_id)
    } else {
        None
    };
    let left = ns.after_leave(channel, id, user_id);
    let rest = ns.room(channel).exited(channel, id, user_id).sockets;
    assert(rest == ns.room(channel).sockets.remove(id));
    if rest == Set::<Seq<char>>::empty() {
        assert(!rest.contains(other));
    }
    assert(left.room(c).sockets.contains(other) <==> ns.room(c).sockets.contains(other) && !(c
        == channel && other == id));
    if channel_type(channel) == ChannelType::Presence {
        let mid = server.with_space(
            app_id,
            left.with_conn(id, ns.sockets[id].struck(channel)),
        );
        let message = member_removed(channel, user_id->0);
        if !mid.space(app_id).all_take(channel, Some(id)) {
            let part = choose|part: NamespaceView| #[trigger]
                mid.space(app_id).broadcast_in_part(channel, message, Some(id), part) && after
                    == mid.with_space(app_id, part);
            assert(part.room(c).sockets == left.room(c).sockets);
        }
    }
}

/// A user is signed in only by the signature that the application's secret gives, and a sign-in that
/// is refused changes nothing.
pub proof fn only_a_signature_signs_in(
    server: ServerView,
    app_id: Seq<char>,
    app_key: Seq<char>,
    id: Seq<char>,
    data: DataView,
)
    ensures
        signed_user(server.apps, id, app_key, Some(data)) is Ok ==> {
            &&& app_with_id(server.apps, app_key) is Some
            &&& sign_in_field(data, "auth"@) == Ok::<Seq<char>, ErrorView>(
                sign_in_signature(
                    server.apps[app_key],
                    id,
                    sign_in_field(data, "user_data"@)->Ok_0,
                ),
            )
        },
        signed_user(server.apps, id, app_key, Some(data)) is Err ==> server.after_sign_in(
            app_id,
            app_key,
            id,
            Some(data),
        ) == server,
{
}

impl NamespaceView {
    /// The namespace is in order: each connection stands under its own id, and each user that is
    /// noted has a connection.
    pub open spec fn in_order(self) -> bool {
        &&& forall|id: Seq<char>| #[trigger]
            self.sockets.contains_key(id) ==> self.sockets[id].state.socket_id == id
        &&& forall|u: Seq<char>| #[trigger]
            self.users.contains_key(u) ==> self.users[u] != Set::<Seq<char>>::empty()
    }
}

impl ServerView {
    /// The namespaces of the server are in order.
    pub open spec fn in_order(self) -> bool {
        forall|app_id: Seq<char>| #[trigger]
            self.spaces.contains_key(app_id) ==> self.spaces[app_id].in_order()
    }
}

/// A namespace that is in order stays so when connections come in, are handed frames, and are taken
/// out, and when users are noted and struck out.
pub proof fn namespace_stays_in_order(
    ns: NamespaceView,
    id: Seq<char>,
    app: Option<AppView>,
    ids: Set<Seq<char>>,
    frame: FrameView,
    user_id: Seq<char>,
)
    requires
        ns.in_order(),
    ensures
        ns.with_socket(id, app).in_order(),
        ns.handed(ids, frame).in_order(),
        ns.without(ids).in_order(),
        ns.with_user(user_id, id).in_order(),
        ns.without_user(user_id, id).in_order(),
{
    let noted = ns.with_user(user_id, id);
    assert(noted.users[user_id].contains(id));
}

/// A server whose namespaces are in order stays so whatever message comes in over a connection.
pub proof fn messages_keep_the_server_in_order(
    server: ServerView,
    app_id: Seq<char>,
    app_key: Seq<char>,
    id: Seq<char>,
    message: MessageView,
    structured: JsonView,
    r: Handled,
    after: ServerView,
)
    requires
        server.in_order(),
        server.can_handle(app_id, id, message),
        server.handles(app_id, app_key, id, message, structured, r, after),
    ensures
        after.in_order(),
{
}

/// A server without connections is in order. One that is in order stays so when a connection comes
/// in, when an event comes in over HTTP, and when a connection that closes leaves a channel or is
/// forgotten.
pub proof fn comings_and_goings_keep_the_server_in_order(
    server: ServerView,
    app_id: Seq<char>,
    id: Seq<char>,
    except: Option<Seq<char>>,
    name: Option<Seq<char>>,
    data: Option<JsonView>,
    channel: Seq<char>,
    user_id: Option<Seq<char>>,
    sent: Option<Publication>,
    left: Result<Departed>,
    after: ServerView,
)
    ensures
        server.spaces == Map::<Seq<char>, NamespaceView>::empty() ==> server.in_order(),
        server.in_order() ==> server.admitted(app_id, id).in_order(),
        server.in_order() && server.sends(app_id, except, name, data, channel, sent, after)
            ==> after.in_order(),
        server.in_order() && server.leaves(app_id, id, user_id, channel, left, after)
            ==> after.in_order(),
        server.in_order() ==> server.forgot(app_id, id).in_order(),
{
}

} // verus!
