//! The connections of one server, in a cluster that exchanges messages over Redis.

use vstd::prelude::*;

use crate::adapter::local_adapter::{on_channel_anywhere, space, LocalAdapter};
use crate::app::config::App;
use crate::channel::types::PresenceMemberInfo;
use crate::connection::manager::ConnectionManager;
use crate::error::{outcome, ErrorView, Result};
use crate::model::{opt_view, views, Duplicate};
use crate::namespace::{closed_off, opt_id, Namespace, NamespaceView};
use crate::protocol::{FrameView, Outgoing, OutgoingView};
use crate::table::{named_order, Dict, NameSet};
use crate::text::same;
use crate::websocket::{writer_gone, SocketId, WebSocket};

verus! {

/// What servers tell each other: a message for a channel, as JSON text, and the connection that does
/// not get it, an empty id where all do.
pub struct BroadcastMessage {
    pub node_id: String,
    pub app_id: String,
    pub channel: String,
    pub socket_id: SocketId,
    pub message: String,
}

/// What the other servers have to be told: a message for a channel, and the connection that does
/// not get it, an empty id where all do.
pub struct Publication {
    pub node_id: String,
    pub app_id: String,
    pub channel: String,
    pub socket_id: SocketId,
    pub message: Outgoing,
}

/// What the other servers have to be told, by its view.
#[verifier::ext_equal]
pub struct PublicationView {
    pub node_id: Seq<char>,
    pub app_id: Seq<char>,
    pub channel: Seq<char>,
    pub socket_id: Seq<char>,
    pub message: OutgoingView,
}

impl View for Publication {
    type V = PublicationView;

    open spec fn view(&self) -> PublicationView {
        PublicationView {
            node_id: self.node_id@,
            app_id: self.app_id@,
            channel: self.channel@,
            socket_id: self.socket_id@,
            message: self.message@,
        }
    }
}

/// What is published of a message to a channel.
pub open spec fn publication(
    node_id: Seq<char>,
    app_id: Seq<char>,
    channel: Seq<char>,
    message: OutgoingView,
    except: Option<Seq<char>>,
) -> PublicationView {
    PublicationView {
        node_id,
        app_id,
        channel,
        socket_id: match except {
            Some(id) => id,
            None => ""@,
        },
        message,
    }
}

/// The connection that a message with this id does not go to; an empty id excepts none.
pub open spec fn excepted(socket_id: Seq<char>) -> Option<Seq<char>> {
    if socket_id == ""@ {
        None
    } else {
        Some(socket_id)
    }
}

/// The connections of one server of a cluster.
pub struct RedisConnectionManager {
    namespaces: LocalAdapter,
    redis_channel: String,
    node_id: String,
}

impl RedisConnectionManager {
    /// The name of this server in the cluster.
    pub closed spec fn node(&self) -> Seq<char> {
        self.node_id@
    }

    /// The Redis channel over which the servers exchange messages.
    pub closed spec fn redis_channel_name(&self) -> Seq<char> {
        self.redis_channel@
    }

    /// A server without connections, with this name in the cluster.
    pub fn new(node_id: String) -> (r: Self)
        ensures
            r.spaces() == Map::<Seq<char>, NamespaceView>::empty(),
            r.node() == node_id@,
            r.redis_channel_name() == "pusher:broadcast"@,
    {
        RedisConnectionManager {
            namespaces: LocalAdapter::new(),
            redis_channel: "pusher:broadcast".to_string(),
            node_id,
        }
    }

    /// The Redis channel over which the servers exchange messages.
    pub fn redis_channel(&self) -> (r: &str)
        ensures
            r@ == self.redis_channel_name(),
    {
        self.redis_channel.as_str()
    }

    /// Whether a message came from another server; one's own are not handled again.
    pub fn is_foreign(&self, message: &BroadcastMessage) -> (r: bool)
        ensures
            r == (message.node_id@ != self.node()),
    {
        !same(message.node_id.as_str(), self.node_id.as_str())
    }

    /// Handles a message of another server: the connections of this server that are on the channel
    /// get `content`, which is what its text reads as, but for the one that it excepts. Messages of
    /// this server, such as cannot be read, and such for an application without a namespace change
    /// nothing.
    pub fn receive(&mut self, message: &BroadcastMessage, content: Option<Outgoing>)
        ensures
            final(self).node() == old(self).node(),
            final(self).redis_channel_name() == old(self).redis_channel_name(),
            match content {
                Some(content) => if message.node_id@ != old(self).node()
                    && old(self).spaces().contains_key(message.app_id@) {
                    let ns = old(self).spaces()[message.app_id@];
                    let except = excepted(message.socket_id@);
                    if ns.all_take(message.channel@, except) {
                        final(self).spaces() == old(self).spaces().insert(
                            message.app_id@,
                            ns.broadcast(message.channel@, content@, except),
                        )
                    } else {
                        exists|after: NamespaceView| #[trigger]
                            ns.broadcast_in_part(message.channel@, content@, except, after)
                                && final(self).spaces() == old(self).spaces().insert(
                                message.app_id@,
                                after,
                            )
                    }
                } else {
                    final(self).spaces() == old(self).spaces()
                },
                None => final(self).spaces() == old(self).spaces(),
            },
    {
        let content = match content {
            Some(content) => content,
            None => return,
        };
        if !self.is_foreign(message) {
            return;
        }
        if self.namespaces.find_namespace(message.app_id.as_str()).is_none() {
            return;
        }
        proof {
            reveal_strlit("");
        }
        let except = if same(message.socket_id.0.as_str(), "") {
            None
        } else {
            Some(&message.socket_id)
        };
        assert(opt_id(except) == excepted(message.socket_id@));
        let _ = self.namespaces.send(
            message.channel.as_str(),
            &content,
            except,
            message.app_id.as_str(),
        );
    }

    /// Whether every connection of a user exists.
    pub fn user_sockets_exist(&self, app_id: &str, user_id: &str) -> (r: bool)
        ensures
            r == self.user_is_connected(app_id@, user_id@),
    {
        self.namespaces.user_sockets_exist(app_id, user_id)
    }

    /// A connection that exists.
    pub fn find_connection(&self, app_id: &str, socket_id: &SocketId) -> (r: Option<&WebSocket>)
        ensures
            match r {
                Some(conn) => space(self.spaces(), app_id@).sockets.contains_key(socket_id@)
                    && conn@ == space(self.spaces(), app_id@).sockets[socket_id@],
                None => !space(self.spaces(), app_id@).sockets.contains_key(socket_id@),
            },
    {
        match self.namespaces.find_namespace(app_id) {
            Some(ns) => ns.get_connection(socket_id),
            None => None,
        }
    }

    /// Whether a connection is subscribed to a channel; nothing is made for the question.
    pub fn is_subscribed(&self, app_id: &str, channel: &str, socket_id: &SocketId) -> (r: bool)
        ensures
            r == space(self.spaces(), app_id@).room(channel@).sockets.contains(socket_id@),
    {
        match self.namespaces.find_namespace(app_id) {
            Some(ns) => match ns.channels.get(channel) {
                Some(data) => data.sockets.contains(socket_id.0.as_str()),
                None => false,
            },
            None => false,
        }
    }
}

impl ConnectionManager for RedisConnectionManager {
    closed spec fn spaces(&self) -> Map<Seq<char>, NamespaceView> {
        self.namespaces@
    }

    open spec fn user_is_connected(&self, app_id: Seq<char>, user_id: Seq<char>) -> bool {
        space(self.spaces(), app_id).user_is_connected(user_id)
    }

    open spec fn has_presence(&self, app_id: Seq<char>, socket_id: Seq<char>) -> bool {
        space(self.spaces(), app_id).has_presence(socket_id)
    }

    /// There is nothing to prepare.
    fn init(&mut self)
        ensures
            *final(self) == *old(self),
    {
    }

    /// The namespace of an application, to be changed in place. One that does not exist is made.
    fn get_namespace(&mut self, app_id: &str) -> (r: &mut Namespace)
        ensures
            r@ == space(old(self).spaces(), app_id@),
            final(self).spaces() == old(self).spaces().insert(app_id@, final(r)@),
            final(self).node() == old(self).node(),
            final(self).redis_channel_name() == old(self).redis_channel_name(),
    {
        self.namespaces.get_namespace(app_id)
    }

    /// Takes a connection in; `app` is the outcome of the search for its application.
    fn add_connection(&mut self, socket_id: SocketId, app_id: &str, app: Result<Option<App>>) -> (r:
        bool)
        ensures
            final(self).node() == old(self).node(),
            final(self).redis_channel_name() == old(self).redis_channel_name(),
            match app {
                Ok(Some(found)) => r && final(self).spaces() == old(self).spaces().insert(
                    app_id@,
                    space(old(self).spaces(), app_id@).with_socket(socket_id@, Some(found@)),
                ),
                Ok(None) => !r && final(self).spaces() == old(self).spaces().insert(
                    app_id@,
                    space(old(self).spaces(), app_id@),
                ),
                Err(_) => r && final(self).spaces() == old(self).spaces().insert(
                    app_id@,
                    space(old(self).spaces(), app_id@).with_socket(socket_id@, None),
                ),
            },
    {
        self.namespaces.add_socket(socket_id, app_id, app)
    }

    /// A connection, to be changed in place.
    fn get_connection(&mut self, socket_id: &SocketId, app_id: &str) -> (r: Option<&mut WebSocket>)
        ensures
            final(self).node() == old(self).node(),
            final(self).redis_channel_name() == old(self).redis_channel_name(),
            match r {
                Some(conn) => {
                    let ns = space(old(self).spaces(), app_id@);
                    &&& ns.sockets.contains_key(socket_id@)
                    &&& conn@ == ns.sockets[socket_id@]
                    &&& final(self).spaces() == old(self).spaces().insert(
                        app_id@,
                        ns.with_conn(socket_id@, final(conn)@),
                    )
                },
                None => {
                    let ns = space(old(self).spaces(), app_id@);
                    !ns.sockets.contains_key(socket_id@) && final(self).spaces()
                        == old(self).spaces().insert(app_id@, ns)
                },
            },
    {
        self.namespaces.get_connection(socket_id, app_id)
    }

    /// Forgets a connection, and gives it back with what it has still to write.
    fn remove_connection(&mut self, socket_id: &SocketId, app_id: &str) -> (r: Option<WebSocket>)
        ensures
            final(self).node() == old(self).node(),
            final(self).redis_channel_name() == old(self).redis_channel_name(),
            final(self).spaces() == old(self).spaces().insert(
                app_id@,
                NamespaceView {
                    sockets: space(old(self).spaces(), app_id@).sockets.remove(socket_id@),
                    ..space(old(self).spaces(), app_id@)
                },
            ),
            match r {
                Some(conn) => space(old(self).spaces(), app_id@).sockets.contains_key(socket_id@)
                    && conn@ == space(old(self).spaces(), app_id@).sockets[socket_id@],
                None => !space(old(self).spaces(), app_id@).sockets.contains_key(socket_id@),
            },
    {
        self.namespaces.remove_connection(socket_id, app_id)
    }

    /// Hands a connection a message.
    fn send_message(&mut self, app_id: &str, socket_id: &SocketId, message: Outgoing) -> (r: Result<
        (),
    >)
        ensures
            final(self).node() == old(self).node(),
            final(self).redis_channel_name() == old(self).redis_channel_name(),
            final(self).spaces() == old(self).spaces().insert(
                app_id@,
                space(old(self).spaces(), app_id@).handed(
                    set![socket_id@],
                    FrameView::Text(message@),
                ),
            ),
            outcome(r) == space(old(self).spaces(), app_id@).send_outcome(socket_id@),
    {
        self.namespaces.send_message(app_id, socket_id, message)
    }

    /// Hands a message to the connections of this server that are on a channel, and gives what the
    /// other servers have to be told.
    fn broadcast(
        &mut self,
        channel: &str,
        message: Outgoing,
        except: Option<&SocketId>,
        app_id: &str,
    ) -> (r: Result<Publication>)
        ensures
            final(self).node() == old(self).node(),
            final(self).redis_channel_name() == old(self).redis_channel_name(),
            outcome(r) == if space(old(self).spaces(), app_id@).all_take(
                channel@,
                opt_id(except),
            ) {
                Ok::<PublicationView, ErrorView>(
                    publication(old(self).node(), app_id@, channel@, message@, opt_id(except)),
                )
            } else {
                Err(writer_gone())
            },
            r is Ok ==> final(self).spaces() == old(self).spaces().insert(
                app_id@,
                space(old(self).spaces(), app_id@).broadcast(channel@, message@, opt_id(except)),
            ),
            r is Err ==> exists|after: NamespaceView| #[trigger]
                space(old(self).spaces(), app_id@).broadcast_in_part(
                    channel@,
                    message@,
                    opt_id(except),
                    after,
                ) && final(self).spaces() == old(self).spaces().insert(app_id@, after),
    {
        match self.namespaces.send(channel, &message, except, app_id) {
            Ok(()) => {
                let socket_id = match except {
                    Some(id) => id.duplicate(),
                    None => SocketId("".to_string()),
                };
                Ok(
                    Publication {
                        node_id: self.node_id.clone(),
                        app_id: app_id.to_string(),
                        channel: channel.to_string(),
                        socket_id,
                        message,
                    },
                )
            },
            Err(e) => Err(e),
        }
    }

    /// The users on a presence channel.
    fn get_channel_members(&mut self, app_id: &str, channel: &str) -> (r: Dict<PresenceMemberInfo>)
        ensures
            final(self).node() == old(self).node(),
            final(self).redis_channel_name() == old(self).redis_channel_name(),
            space(old(self).spaces(), app_id@).are_members(channel@, r@),
            final(self).spaces() == old(self).spaces().insert(
                app_id@,
                space(old(self).spaces(), app_id@).touched(channel@),
            ),
    {
        self.namespaces.get_channel_members(app_id, channel)
    }

    /// The connections on a channel of any application, each once.
    fn get_channel_sockets(&self, channel: &str) -> (r: Vec<SocketId>)
        ensures
            named_order(views(r@), on_channel_anywhere(self.spaces(), channel@)),
    {
        self.namespaces.get_all_channel_sockets(channel)
    }

    /// The connections that are subscribed to a channel. A channel that does not exist is made.
    fn get_channel(&mut self, app_id: &str, channel: &str) -> (r: NameSet)
        ensures
            final(self).node() == old(self).node(),
            final(self).redis_channel_name() == old(self).redis_channel_name(),
            r@ == space(old(self).spaces(), app_id@).room(channel@).sockets,
            final(self).spaces() == old(self).spaces().insert(
                app_id@,
                space(old(self).spaces(), app_id@).touched(channel@),
            ),
    {
        self.namespaces.get_channel(app_id, channel)
    }

    /// Removes a channel.
    fn remove_channel(&mut self, app_id: &str, channel: &str)
        ensures
            final(self).node() == old(self).node(),
            final(self).redis_channel_name() == old(self).redis_channel_name(),
            final(self).spaces() == old(self).spaces().insert(
                app_id@,
                NamespaceView {
                    channels: space(old(self).spaces(), app_id@).channels.remove(channel@),
                    ..space(old(self).spaces(), app_id@)
                },
            ),
    {
        self.namespaces.remove_channel(app_id, channel)
    }

    /// Whether a connection is subscribed to a channel. A channel that does not exist is made.
    fn is_in_channel(&mut self, app_id: &str, channel: &str, socket_id: &SocketId) -> (r: bool)
        ensures
            final(self).node() == old(self).node(),
            final(self).redis_channel_name() == old(self).redis_channel_name(),
            r == space(old(self).spaces(), app_id@).room(channel@).sockets.contains(socket_id@),
            final(self).spaces() == old(self).spaces().insert(
                app_id@,
                space(old(self).spaces(), app_id@).touched(channel@),
            ),
    {
        self.namespaces.is_in_channel(app_id, channel, socket_id)
    }

    /// The connections of a user, all of which exist.
    fn get_user_connections(&mut self, user_id: &str, app_id: &str) -> (r: NameSet)
        ensures
            final(self).node() == old(self).node(),
            final(self).redis_channel_name() == old(self).redis_channel_name(),
            r@ == space(old(self).spaces(), app_id@).connections_of(user_id@),
            final(self).spaces() == old(self).spaces().insert(
                app_id@,
                space(old(self).spaces(), app_id@),
            ),
    {
        self.namespaces.get_user_sockets(user_id, app_id)
    }

    /// Takes a connection out of everything, and gives it back with what it has still to write.
    fn cleanup_connection(&mut self, app_id: &str, socket_id: &SocketId) -> (r: Option<WebSocket>)
        ensures
            final(self).node() == old(self).node(),
            final(self).redis_channel_name() == old(self).redis_channel_name(),
            final(self).spaces() == old(self).spaces().insert(
                app_id@,
                space(old(self).spaces(), app_id@).without(set![socket_id@]),
            ),
            opt_view(r) == space(old(self).spaces(), app_id@).taken_out(socket_id@),
    {
        self.namespaces.cleanup_connection(app_id, socket_id)
    }

    /// Takes every connection of a user out, and gives them back with what they have still to
    /// write.
    fn terminate_connection(&mut self, app_id: &str, user_id: &str) -> (r: Vec<WebSocket>)
        ensures
            final(self).node() == old(self).node(),
            final(self).redis_channel_name() == old(self).redis_channel_name(),
            final(self).spaces() == old(self).spaces().insert(
                app_id@,
                space(old(self).spaces(), app_id@).without_user_connections(user_id@),
            ),
            closed_off(
                space(old(self).spaces(), app_id@),
                space(old(self).spaces(), app_id@).connections_of(user_id@),
                r@,
            ),
    {
        self.namespaces.terminate_user_connections(app_id, user_id)
    }

    /// Adds a connection to a channel.
    fn add_channel_to_sockets(&mut self, app_id: &str, channel: &str, socket_id: &SocketId)
        ensures
            final(self).node() == old(self).node(),
            final(self).redis_channel_name() == old(self).redis_channel_name(),
            final(self).spaces() == old(self).spaces().insert(
                app_id@,
                space(old(self).spaces(), app_id@).joined(channel@, socket_id@),
            ),
    {
        self.namespaces.add_to_channel(app_id, channel, socket_id);
    }

    /// Adds a connection to a channel.
    fn add_socket_to_channel(&mut self, app_id: &str, channel: &str, socket_id: &SocketId)
        ensures
            final(self).node() == old(self).node(),
            final(self).redis_channel_name() == old(self).redis_channel_name(),
            final(self).spaces() == old(self).spaces().insert(
                app_id@,
                space(old(self).spaces(), app_id@).joined(channel@, socket_id@),
            ),
    {
        self.namespaces.add_to_channel(app_id, channel, socket_id);
    }

    /// Takes a connection off a channel. A channel that nobody is left on is gone.
    fn remove_socket_from_channel(&mut self, app_id: &str, channel: &str, socket_id: &SocketId) -> (r:
        bool)
        ensures
            final(self).node() == old(self).node(),
            final(self).redis_channel_name() == old(self).redis_channel_name(),
            final(self).spaces() == old(self).spaces().insert(
                app_id@,
                space(old(self).spaces(), app_id@).left(channel@, socket_id@),
            ),
            r,
    {
        self.namespaces.remove_from_channel(app_id, channel, socket_id)
    }

    /// What a connection is known as on a presence channel. The connection exists and has joined a
    /// presence channel.
    fn get_presence_member(&mut self, app_id: &str, channel: &str, socket_id: &SocketId) -> (r:
        Option<PresenceMemberInfo>)
        ensures
            final(self).node() == old(self).node(),
            final(self).redis_channel_name() == old(self).redis_channel_name(),
            opt_view(r) == space(old(self).spaces(), app_id@).sockets[socket_id@].state.member_on(
                channel@,
            ),
            final(self).spaces() == old(self).spaces().insert(
                app_id@,
                space(old(self).spaces(), app_id@),
            ),
    {
        self.namespaces.get_presence_member(app_id, channel, socket_id)
    }
}

} // verus!
