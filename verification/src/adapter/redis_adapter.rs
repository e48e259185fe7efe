//! The namespaces of one server, in a cluster that exchanges messages over Redis.

use vstd::prelude::*;

use crate::adapter::local_adapter::{space, LocalAdapter};
use crate::app::config::App;
use crate::channel::types::PresenceMemberInfo;
use crate::error::{outcome, ErrorView, Result};
use crate::model::{opt_view, Duplicate};
use crate::namespace::{closed_off, opt_id, Namespace, NamespaceView};
use crate::protocol::{FrameView, Outgoing, OutgoingView};
use crate::table::{Dict, NameSet};
use crate::text::{join, same};
use crate::websocket::{writer_gone, SocketId, WebSocket};

verus! {

/// What servers tell each other: a message to a channel, as JSON text.
#[derive(Debug)]
pub struct BroadcastMessage {
    pub node_id: String,
    pub channel: String,
    pub socket_id: SocketId,
    pub message: String,
    pub app_id: String,
}

/// What the other servers have to be told: a message for a channel, and the connection that does
/// not get it, an empty id where all do.
pub struct Notice {
    pub node_id: String,
    pub channel: String,
    pub socket_id: SocketId,
    pub message: Outgoing,
    pub app_id: String,
}

/// What the other servers have to be told, by its view.
#[verifier::ext_equal]
pub struct NoticeView {
    pub node_id: Seq<char>,
    pub channel: Seq<char>,
    pub socket_id: Seq<char>,
    pub message: OutgoingView,
    pub app_id: Seq<char>,
}

impl View for Notice {
    type V = NoticeView;

    open spec fn view(&self) -> NoticeView {
        NoticeView {
            node_id: self.node_id@,
            channel: self.channel@,
            socket_id: self.socket_id@,
            message: self.message@,
            app_id: self.app_id@,
        }
    }
}

/// What is told of a message to a channel.
pub open spec fn notice(
    node_id: Seq<char>,
    channel: Seq<char>,
    message: OutgoingView,
    except: Option<Seq<char>>,
    app_id: Seq<char>,
) -> NoticeView {
    NoticeView {
        node_id,
        channel,
        socket_id: match except {
            Some(id) => id,
            None => ""@,
        },
        message,
        app_id,
    }
}

/// The namespaces of one server of a cluster.
pub struct RedisAdapter {
    local_adapter: LocalAdapter,
    channel: String,
    prefix: String,
    node_id: String,
}

impl NamespaceView {
    /// The namespace after a message to a channel was handed out here and again as one for the
    /// cluster: each connection that it goes to has got it twice.
    pub open spec fn broadcast_twice(
        self,
        channel: Seq<char>,
        message: OutgoingView,
        except: Option<Seq<char>>,
    ) -> NamespaceView {
        self.broadcast(channel, message, except).broadcast(channel, message, except)
    }
}

/// A message that every connection takes is taken again.
proof fn lemma_taken_again(
    ns: NamespaceView,
    channel: Seq<char>,
    message: OutgoingView,
    except: Option<Seq<char>>,
)
    requires
        ns.all_take(channel, except),
    ensures
        ns.broadcast(channel, message, except).all_take(channel, except),
{
    let after = ns.broadcast(channel, message, except);
    assert forall|id: Seq<char>| #[trigger] after.targets(channel, except).contains(id) implies
        after.sockets[id].open by {
        assert(ns.targets(channel, except).contains(id));
    }
}

impl RedisAdapter {
    /// The namespaces by the ids of the applications.
    pub closed spec fn spaces(&self) -> Map<Seq<char>, NamespaceView> {
        self.local_adapter@
    }

    /// The name of this server in the cluster.
    pub closed spec fn node(&self) -> Seq<char> {
        self.node_id@
    }

    /// The Redis channel over which the servers exchange messages.
    pub closed spec fn topic_name(&self) -> Seq<char> {
        self.prefix@ + "#"@ + self.channel@
    }

    /// Both are one server: they have the same name, and listen to the same Redis channel.
    pub open spec fn same_server(&self, other: RedisAdapter) -> bool {
        self.node() == other.node() && self.topic_name() == other.topic_name()
    }

    /// A server without namespaces, with this name in the cluster.
    pub fn new(prefix: &str, node_id: String) -> (r: Self)
        ensures
            r.spaces() == Map::<Seq<char>, NamespaceView>::empty(),
            r.node() == node_id@,
            r.topic_name() == prefix@ + "#"@ + "redis-adapter"@,
    {
        RedisAdapter {
            local_adapter: LocalAdapter::new(),
            channel: "redis-adapter".to_string(),
            prefix: prefix.to_string(),
            node_id,
        }
    }

    /// The Redis channel over which the servers exchange messages.
    pub fn topic(&self) -> (r: String)
        ensures
            r@ == self.topic_name(),
    {
        join(self.prefix.as_str(), "#", self.channel.as_str())
    }

    /// Handles a message of another server, whose text reads as `content`, as if it had been sent
    /// here. One's own messages are not handled again.
    pub fn handle_redis_message(&mut self, message: &BroadcastMessage, content: Outgoing) -> (r: Option<
        Result<Notice>,
    >)
        ensures
            final(self).same_server(*old(self)),
            match r {
                None => message.node_id@ == old(self).node() && final(self).spaces() == old(
                    self,
                ).spaces(),
                Some(sent) => message.node_id@ != old(self).node() && old(self).sends(
                    message.channel@,
                    content@,
                    Some(message.socket_id@),
                    message.app_id@,
                    sent,
                    *final(self),
                ),
            },
    {
        if same(message.node_id.as_str(), self.node_id.as_str()) {
            return None;
        }
        Some(
            self.send(
                message.channel.as_str(),
                content,
                Some(&message.socket_id),
                message.app_id.as_str(),
            ),
        )
    }

    /// Whether a message to a channel was sent: `r` is its result, with what the other servers have
    /// to be told, and `after` the server after it.
    pub open spec fn sends(
        &self,
        channel: Seq<char>,
        message: OutgoingView,
        except: Option<Seq<char>>,
        app_id: Seq<char>,
        r: Result<Notice>,
        after: RedisAdapter,
    ) -> bool {
        let ns = space(self.spaces(), app_id);
        if ns.all_take(channel, except) {
            &&& outcome(r) == Ok::<NoticeView, ErrorView>(
                notice(self.node(), channel, message, except, app_id),
            )
            &&& after.spaces() == self.spaces().insert(
                app_id,
                ns.broadcast_twice(channel, message, except),
            )
        } else {
            &&& outcome(r) == Err::<NoticeView, ErrorView>(writer_gone())
            &&& exists|part: NamespaceView| #[trigger]
                ns.broadcast_in_part(channel, message, except, part) && after.spaces()
                    == self.spaces().insert(app_id, part)
        }
    }

    /// Hands a message to the connections on a channel, but to `except`, and gives what the other
    /// servers have to be told.
    pub fn send(
        &mut self,
        channel: &str,
        message: Outgoing,
        except: Option<&SocketId>,
        app_id: &str,
    ) -> (r: Result<Notice>)
        ensures
            final(self).same_server(*old(self)),
            old(self).sends(channel@, message@, opt_id(except), app_id@, r, *final(self)),
    {
        let ghost ns = space(self.spaces(), app_id@);
        match self.local_adapter.send(channel, &message, except, app_id) {
            Ok(()) => {},
            Err(e) => return Err(e),
        }
        proof {
            lemma_taken_again(ns, channel@, message@, opt_id(except));
        }
        let _ = self.local_adapter.get_namespace(app_id).broadcast(channel, &message, except);
        let socket_id = match except {
            Some(id) => id.duplicate(),
            None => SocketId("".to_string()),
        };
        let told = Notice {
            node_id: self.node_id.clone(),
            channel: channel.to_string(),
            socket_id,
            message,
            app_id: app_id.to_string(),
        };
        assert(self.spaces() =~= old(self).spaces().insert(
            app_id@,
            ns.broadcast_twice(channel@, message@, opt_id(except)),
        ));
        Ok(told)
    }

    /// Hands a connection a message. The connection takes it, or does not exist.
    pub fn send_message(&mut self, app_id: &str, socket_id: &SocketId, message: Outgoing) -> (r:
        Result<()>)
        requires
            space(old(self).spaces(), app_id@).send_outcome(socket_id@) is Ok,
        ensures
            final(self).same_server(*old(self)),
            r is Ok,
            final(self).spaces() == old(self).spaces().insert(
                app_id@,
                space(old(self).spaces(), app_id@).handed(
                    set![socket_id@],
                    FrameView::Text(message@),
                ),
            ),
    {
        self.local_adapter.send_message(app_id, socket_id, message)
    }

    /// Takes every connection of a user out, and gives them back with what they have still to
    /// write.
    pub fn terminate_connection(&mut self, app_id: &str, user_id: &str) -> (r: Vec<WebSocket>)
        requires
            space(old(self).spaces(), app_id@).user_is_connected(user_id@),
        ensures
            final(self).same_server(*old(self)),
            final(self).spaces() == old(self).spaces().insert(
                app_id@,
                space(old(self).spaces(), app_id@).without_user_connections(user_id@),
            ),
            closed_off(
                space(old(self).spaces(), app_id@),
                space(old(self).spaces(), app_id@).connections_of(user_id@),
                r@,
            ),
    {
        self.terminate_user_connections(app_id, user_id)
    }

    /// Adds a connection to a channel.
    pub fn add_channel_to_sockets(&mut self, app_id: &str, channel: &str, socket_id: &SocketId)
        ensures
            final(self).same_server(*old(self)),
            final(self).spaces() == old(self).spaces().insert(
                app_id@,
                space(old(self).spaces(), app_id@).joined(channel@, socket_id@),
            ),
    {
        self.local_adapter.add_to_channel(app_id, channel, socket_id);
    }

    /// The namespace of an application, to be changed in place. One that does not exist is made.
    pub fn get_namespace(&mut self, app_id: &str) -> (r: &mut Namespace)
        ensures
            final(self).same_server(*old(self)),
            r@ == space(old(self).spaces(), app_id@),
            final(self).spaces() == old(self).spaces().insert(app_id@, final(r)@),
    {
        self.local_adapter.get_namespace(app_id)
    }

    /// Takes a connection in; `app` is the outcome of the search for its application.
    pub fn add_socket(&mut self, socket_id: SocketId, app_id: &str, app: Result<Option<App>>) -> (r:
        bool)
        ensures
            final(self).same_server(*old(self)),
            match app {
                Ok(Some(found)) => r && final(self).spaces() == old(self).spaces().insert(
                    app_id@,
                    space(old(self).spaces(), app_id@).with_socket(socket_id@, Some(found@)),
                ),
                Ok(None) => !r && final(self).spaces() == old(self).spaces().insert(
                    app_id@,
                    space(old(self).spaces(), app_id@),
                ),
                Err(_) => r && final(self).spaces() == old(self).spaces().insert(
                    app_id@,
                    space(old(self).spaces(), app_id@).with_socket(socket_id@, None),
                ),
            },
    {
        self.local_adapter.add_socket(socket_id, app_id, app)
    }

    /// A connection, to be changed in place.
    pub fn get_connection(&mut self, socket_id: &SocketId, app_id: &str) -> (r: Option<
        &mut WebSocket,
    >)
        ensures
            final(self).same_server(*old(self)),
            match r {
                Some(conn) => {
                    let ns = space(old(self).spaces(), app_id@);
                    &&& ns.sockets.contains_key(socket_id@)
                    &&& conn@ == ns.sockets[socket_id@]
                    &&& final(self).spaces() == old(self).spaces().insert(
                        app_id@,
                        ns.with_conn(socket_id@, final(conn)@),
                    )
                },
                None => {
                    let ns = space(old(self).spaces(), app_id@);
                    !ns.sockets.contains_key(socket_id@) && final(self).spaces() == old(self).spaces().insert(
                        app_id@,
                        ns,
                    )
                },
            },
    {
        self.local_adapter.get_connection(socket_id, app_id)
    }

    /// Forgets a connection, and gives it back with what it has still to write.
    pub fn remove_connection(&mut self, socket_id: &SocketId, app_id: &str) -> (r: Option<WebSocket>)
        ensures
            final(self).same_server(*old(self)),
            final(self).spaces() == old(self).spaces().insert(
                app_id@,
                NamespaceView {
                    sockets: space(old(self).spaces(), app_id@).sockets.remove(socket_id@),
                    ..space(old(self).spaces(), app_id@)
                },
            ),
            match r {
                Some(conn) => space(old(self).spaces(), app_id@).sockets.contains_key(socket_id@) && conn@
                    == space(old(self).spaces(), app_id@).sockets[socket_id@],
                None => !space(old(self).spaces(), app_id@).sockets.contains_key(socket_id@),
            },
    {
        self.local_adapter.remove_connection(socket_id, app_id)
    }

    /// The users on a presence channel.
    pub fn get_channel_members(&mut self, app_id: &str, channel: &str) -> (r: Dict<
        PresenceMemberInfo,
    >)
        ensures
            final(self).same_server(*old(self)),
            space(old(self).spaces(), app_id@).are_members(channel@, r@),
            final(self).spaces() == old(self).spaces().insert(
                app_id@,
                space(old(self).spaces(), app_id@).touched(channel@),
            ),
    {
        self.local_adapter.get_channel_members(app_id, channel)
    }

    /// The connections on a channel that exist.
    pub fn get_channel_sockets(&mut self, app_id: &str, channel: &str) -> (r: NameSet)
        ensures
            final(self).same_server(*old(self)),
            r@ == space(old(self).spaces(), app_id@).targets(channel@, None),
            final(self).spaces() == old(self).spaces().insert(app_id@, space(old(self).spaces(), app_id@)),
    {
        self.local_adapter.get_channel_sockets(app_id, channel)
    }

    /// The connections that are subscribed to a channel. A channel that does not exist is made.
    pub fn get_channel(&mut self, app_id: &str, channel: &str) -> (r: NameSet)
        ensures
            final(self).same_server(*old(self)),
            r@ == space(old(self).spaces(), app_id@).room(channel@).sockets,
            final(self).spaces() == old(self).spaces().insert(
                app_id@,
                space(old(self).spaces(), app_id@).touched(channel@),
            ),
    {
        self.local_adapter.get_channel(app_id, channel)
    }

    /// Removes a channel.
    pub fn remove_channel(&mut self, app_id: &str, channel: &str)
        ensures
            final(self).same_server(*old(self)),
            final(self).spaces() == old(self).spaces().insert(
                app_id@,
                NamespaceView {
                    channels: space(old(self).spaces(), app_id@).channels.remove(channel@),
                    ..space(old(self).spaces(), app_id@)
                },
            ),
    {
        self.local_adapter.remove_channel(app_id, channel)
    }

    /// Whether a connection is subscribed to a channel. A channel that does not exist is made.
    pub fn is_in_channel(&mut self, app_id: &str, channel: &str, socket_id: &SocketId) -> (r: bool)
        ensures
            final(self).same_server(*old(self)),
            r == space(old(self).spaces(), app_id@).room(channel@).sockets.contains(socket_id@),
            final(self).spaces() == old(self).spaces().insert(
                app_id@,
                space(old(self).spaces(), app_id@).touched(channel@),
            ),
    {
        self.local_adapter.is_in_channel(app_id, channel, socket_id)
    }

    /// Whether every connection of a user exists.
    pub fn user_sockets_exist(&self, app_id: &str, user_id: &str) -> (r: bool)
        ensures
            r == space(self.spaces(), app_id@).user_is_connected(user_id@),
    {
        self.local_adapter.user_sockets_exist(app_id, user_id)
    }

    /// The connections of a user, all of which exist.
    pub fn get_user_sockets(&mut self, user_id: &str, app_id: &str) -> (r: NameSet)
        requires
            space(old(self).spaces(), app_id@).user_is_connected(user_id@),
        ensures
            final(self).same_server(*old(self)),
            r@ == space(old(self).spaces(), app_id@).connections_of(user_id@),
            final(self).spaces() == old(self).spaces().insert(app_id@, space(old(self).spaces(), app_id@)),
    {
        self.local_adapter.get_user_sockets(user_id, app_id)
    }

    /// Takes a connection out of everything, and gives it back with what it has still to write.
    pub fn cleanup_connection(&mut self, app_id: &str, socket_id: &SocketId) -> (r: Option<
        WebSocket,
    >)
        ensures
            final(self).same_server(*old(self)),
            final(self).spaces() == old(self).spaces().insert(
                app_id@,
                space(old(self).spaces(), app_id@).without(set![socket_id@]),
            ),
            opt_view(r) == space(old(self).spaces(), app_id@).taken_out(socket_id@),
    {
        self.local_adapter.cleanup_connection(app_id, socket_id)
    }

    /// Takes every connection of a user out, and gives them back with what they have still to
    /// write.
    pub fn terminate_user_connections(&mut self, app_id: &str, user_id: &str) -> (r: Vec<WebSocket>)
        requires
            space(old(self).spaces(), app_id@).user_is_connected(user_id@),
        ensures
            final(self).same_server(*old(self)),
            final(self).spaces() == old(self).spaces().insert(
                app_id@,
                space(old(self).spaces(), app_id@).without_user_connections(user_id@),
            ),
            closed_off(
                space(old(self).spaces(), app_id@),
                space(old(self).spaces(), app_id@).connections_of(user_id@),
                r@,
            ),
    {
        self.local_adapter.terminate_user_connections(app_id, user_id)
    }

    /// Adds a connection to a channel, and says whether it was not on it before.
    pub fn add_to_channel(&mut self, app_id: &str, channel: &str, socket_id: &SocketId) -> (r: bool)
        ensures
            final(self).same_server(*old(self)),
            final(self).spaces() == old(self).spaces().insert(
                app_id@,
                space(old(self).spaces(), app_id@).joined(channel@, socket_id@),
            ),
            r == !space(old(self).spaces(), app_id@).room(channel@).sockets.contains(socket_id@),
    {
        self.local_adapter.add_to_channel(app_id, channel, socket_id)
    }

    /// How many connections are subscribed to a channel. A channel that does not exist is made.
    pub fn get_channel_socket_count(&mut self, app_id: &str, channel: &str) -> (r: usize)
        ensures
            final(self).same_server(*old(self)),
            r == space(old(self).spaces(), app_id@).room(channel@).sockets.len(),
            final(self).spaces() == old(self).spaces().insert(
                app_id@,
                space(old(self).spaces(), app_id@).touched(channel@),
            ),
    {
        self.local_adapter.get_channel_socket_count(app_id, channel)
    }

    /// Takes a connection off a channel.
    pub fn remove_from_channel(&mut self, app_id: &str, channel: &str, socket_id: &SocketId) -> (r:
        bool)
        ensures
            final(self).same_server(*old(self)),
            final(self).spaces() == old(self).spaces().insert(
                app_id@,
                space(old(self).spaces(), app_id@).left(channel@, socket_id@),
            ),
            r,
    {
        self.local_adapter.remove_from_channel(app_id, channel, socket_id)
    }

    /// What a connection is known as on a presence channel. The connection exists and has joined a
    /// presence channel.
    pub fn get_presence_member(&mut self, app_id: &str, channel: &str, socket_id: &SocketId) -> (r:
        Option<PresenceMemberInfo>)
        requires
            space(old(self).spaces(), app_id@).has_presence(socket_id@),
        ensures
            final(self).same_server(*old(self)),
            opt_view(r) == space(old(self).spaces(), app_id@).sockets[socket_id@].state.member_on(channel@),
            final(self).spaces() == old(self).spaces().insert(app_id@, space(old(self).spaces(), app_id@)),
    {
        self.local_adapter.get_presence_member(app_id, channel, socket_id)
    }

    /// Notes the user that signed in over a connection, if one did.
    pub fn add_user(&mut self, app_id: &str, socket_id: &SocketId)
        requires
            space(old(self).spaces(), app_id@).signed_in_properly(socket_id@),
        ensures
            final(self).same_server(*old(self)),
            final(self).spaces() == old(self).spaces().insert(
                app_id@,
                match space(old(self).spaces(), app_id@).signed_in(socket_id@) {
                    Some(user_id) => space(old(self).spaces(), app_id@).with_user(user_id, socket_id@),
                    None => space(old(self).spaces(), app_id@),
                },
            ),
    {
        self.local_adapter.add_user(app_id, socket_id)
    }

    /// Strikes out the connection of the user that signed in over it, if one did.
    pub fn remove_user(&mut self, app_id: &str, socket_id: &SocketId)
        requires
            space(old(self).spaces(), app_id@).signed_in_properly(socket_id@),
        ensures
            final(self).same_server(*old(self)),
            final(self).spaces() == old(self).spaces().insert(
                app_id@,
                match space(old(self).spaces(), app_id@).signed_in(socket_id@) {
                    Some(user_id) => space(old(self).spaces(), app_id@).without_user(user_id, socket_id@),
                    None => space(old(self).spaces(), app_id@),
                },
            ),
    {
        self.local_adapter.remove_user(app_id, socket_id)
    }

    /// Notes the user that signed in over a connection, where the connection exists and the user has
    /// an id; else nothing changes. Says whether that is so.
    pub fn try_add_user(&mut self, app_id: &str, socket_id: &SocketId) -> (r: bool)
        ensures
            final(self).same_server(*old(self)),
            r == space(old(self).spaces(), app_id@).signed_in_properly(socket_id@),
            final(self).spaces() == if r {
                old(self).spaces().insert(
                    app_id@,
                    match space(old(self).spaces(), app_id@).signed_in(socket_id@) {
                        Some(user_id) => space(old(self).spaces(), app_id@).with_user(
                            user_id,
                            socket_id@,
                        ),
                        None => space(old(self).spaces(), app_id@),
                    },
                )
            } else {
                old(self).spaces()
            },
    {
        if self.local_adapter.is_signed_in_properly(app_id, socket_id) {
            self.add_user(app_id, socket_id);
            true
        } else {
            false
        }
    }

    /// Strikes out the connection of the user that signed in over it, where the connection exists and
    /// the user has an id; else nothing changes. Says whether that is so.
    pub fn try_remove_user(&mut self, app_id: &str, socket_id: &SocketId) -> (r: bool)
        ensures
            final(self).same_server(*old(self)),
            r == space(old(self).spaces(), app_id@).signed_in_properly(socket_id@),
            final(self).spaces() == if r {
                old(self).spaces().insert(
                    app_id@,
                    match space(old(self).spaces(), app_id@).signed_in(socket_id@) {
                        Some(user_id) => space(old(self).spaces(), app_id@).without_user(
                            user_id,
                            socket_id@,
                        ),
                        None => space(old(self).spaces(), app_id@),
                    },
                )
            } else {
                old(self).spaces()
            },
    {
        if self.local_adapter.is_signed_in_properly(app_id, socket_id) {
            self.remove_user(app_id, socket_id);
            true
        } else {
            false
        }
    }
}

/// A message that one server sends to a channel of an application, and that all connections take,
/// reaches on another server that handles the notice of it exactly the connections on that channel of
/// that application, but the one that it excepts; each gets it twice, as the connections of the server
/// that sends it do. The notice names the server, the application, the channel, the connection that
/// does not get it, by an empty id where all do, and the message. What the other server has to tell
/// in turn is of the same message.
pub proof fn sent_message_reaches_the_channel_on_every_server(
    here: RedisAdapter,
    channel: Seq<char>,
    message: OutgoingView,
    except: Option<Seq<char>>,
    app_id: Seq<char>,
    r: Result<Notice>,
    here_after: RedisAdapter,
    there: RedisAdapter,
    passed_on: Result<Notice>,
    there_after: RedisAdapter,
    id: Seq<char>,
    other_app: Seq<char>,
)
    requires
        here.sends(channel, message, except, app_id, r, here_after),
        forall|x: Seq<char>|
            #![trigger here.spaces()[app_id].sockets[x]]
            here.spaces().contains_key(app_id) && here.spaces()[app_id].sockets.contains_key(x)
                ==> here.spaces()[app_id].sockets[x].open,
        r matches Ok(told) ==> there.sends(
            told.channel@,
            told.message@,
            Some(told.socket_id@),
            told.app_id@,
            passed_on,
            there_after,
        ),
        there.spaces().contains_key(app_id),
        there.spaces()[app_id].sockets.contains_key(id),
        id.len() > 0,
        forall|x: Seq<char>|
            #![trigger there.spaces()[app_id].sockets[x]]
            there.spaces()[app_id].sockets.contains_key(x)
                ==> there.spaces()[app_id].sockets[x].open,
    ensures
        ({
            let before = there.spaces()[app_id];
            let on = before.channels.contains_key(channel)
                && before.channels[channel].sockets.contains(id);
            &&& r matches Ok(told)
            &&& told.node_id@ == here.node()
            &&& told.channel@ == channel
            &&& told.message@ == message
            &&& told.app_id@ == app_id
            &&& except matches Some(x) ==> told.socket_id@ == x
            &&& except is None ==> told.socket_id@.len() == 0
            &&& there_after.spaces().contains_key(app_id)
            &&& there_after.spaces()[app_id].sockets.contains_key(id)
            &&& there_after.spaces()[app_id].sockets[id].outbox == if on && except != Some(id) {
                before.sockets[id].outbox.push(FrameView::Text(message)).push(
                    FrameView::Text(message),
                )
            } else {
                before.sockets[id].outbox
            }
            &&& other_app != app_id ==> {
                &&& there_after.spaces().contains_key(other_app) == there.spaces().contains_key(
                    other_app,
                )
                &&& there.spaces().contains_key(other_app) ==> there_after.spaces()[other_app]
                    == there.spaces()[other_app]
            }
            &&& passed_on matches Ok(again)
            &&& again.node_id@ == there.node()
            &&& again.channel@ == channel
            &&& again.message@ == message
            &&& again.app_id@ == app_id
            &&& again.socket_id@ == told.socket_id@
        }),
{
    reveal_strlit("");
    let near = space(here.spaces(), app_id);
    assert forall|x: Seq<char>| #[trigger] near.targets(channel, except).contains(x) implies
        near.sockets[x].open by {
        assert(here.spaces().contains_key(app_id));
        assert(here.spaces()[app_id].sockets[x].open);
    }
    let told = r->Ok_0;
    let skip = Some(told.socket_id@);
    let far = there.spaces()[app_id];
    assert forall|x: Seq<char>| #[trigger] far.targets(channel, skip).contains(x) implies
        far.sockets[x].open by {
        assert(there.spaces()[app_id].sockets[x].open);
    }
    assert(far.all_take(channel, skip));
    lemma_taken_again(far, channel, message, skip);
    if far.room(channel).sockets.contains(id) && except != Some(id) {
        assert(far.targets(channel, skip).contains(id));
        assert(far.broadcast(channel, message, skip).targets(channel, skip).contains(id));
    }
}

/// A message that a server sends to a channel reaches each of its own connections on the channel
/// twice, but the one that it excepts, and nobody else; where a connection refuses it, it is not told
/// of to other servers.
pub proof fn sent_message_reaches_the_channel_here(
    here: RedisAdapter,
    channel: Seq<char>,
    message: OutgoingView,
    except: Option<Seq<char>>,
    app_id: Seq<char>,
    r: Result<Notice>,
    after: RedisAdapter,
    id: Seq<char>,
)
    requires
        here.sends(channel, message, except, app_id, r, after),
        here.spaces().contains_key(app_id),
        here.spaces()[app_id].sockets.contains_key(id),
    ensures
        r is Ok ==> after.spaces()[app_id].sockets[id].outbox == if here.spaces()[app_id].channels.contains_key(
            channel,
        ) && here.spaces()[app_id].channels[channel].sockets.contains(id) && except != Some(id) {
            here.spaces()[app_id].sockets[id].outbox.push(FrameView::Text(message)).push(
                FrameView::Text(message),
            )
        } else {
            here.spaces()[app_id].sockets[id].outbox
        },
        here.spaces()[app_id].channels.contains_key(channel)
            && here.spaces()[app_id].channels[channel].sockets.contains(id) && except != Some(id)
            && !here.spaces()[app_id].sockets[id].open ==> (r matches Err(e) && e@
            == ErrorView::ConnectionError("Failed to send message: channel closed"@)),
{
    let ns = here.spaces()[app_id];
    if ns.room(channel).sockets.contains(id) && except != Some(id) {
        assert(ns.targets(channel, except).contains(id));
    }
    if r is Ok {
        lemma_taken_again(ns, channel, message, except);
        if ns.room(channel).sockets.contains(id) && except != Some(id) {
            assert(ns.broadcast(channel, message, except).targets(channel, except).contains(id));
        }
    }
}

} // verus!
