//! How a connection that closes leaves its channels, one after the other.

use vstd::prelude::*;

use crate::channel::types::{channel_type, ChannelType};
use crate::connection::handler::{member_removed, ConnectionHandler, ServerView};
use crate::connection::manager::ConnectionManager;
use crate::connection::redis_manager::{publication, Publication};
use crate::error::Result;
use crate::model::Duplicate;
use crate::namespace::NamespaceView;
use crate::protocol::Outgoing;
use crate::table::named_order;
use crate::text::{copy_opt, opt_text, starts_with, texts};
use crate::websocket::{writer_gone, SocketId, WebSocket};

verus! {

/// A connection that is leaving its channels.
pub struct Departure {
    pub app_id: String,
    pub socket_id: SocketId,
    /// The user that joined presence channels over the connection.
    pub user_id: Option<String>,
    /// The channels to leave.
    pub channels: Vec<String>,
    /// How many of them were left.
    pub next: usize,
}

/// What became of a step.
pub enum Departed {
    /// Every channel was left, and the connection is forgotten. It is given back with what it has
    /// still to write.
    Gone(Option<WebSocket>),
    /// A channel was left.
    Left,
    /// A channel was left; the other servers have to be told.
    Tell(Publication),
}

impl NamespaceView {
    /// Whether a connection on a channel tells of this user.
    pub open spec fn still_there(self, channel: Seq<char>, user_id: Seq<char>) -> bool {
        exists|id: Seq<char>|
            (#[trigger] self.told_by(channel, id)) is Some && self.told_by(channel, id)->0.user_id
                == user_id
    }

    /// The namespace after a connection that closes left a channel.
    pub open spec fn abandoned(
        self,
        channel: Seq<char>,
        id: Seq<char>,
        user_id: Option<Seq<char>>,
    ) -> NamespaceView {
        let left = self.after_leave(channel, id, user_id);
        if channel_type(channel) == ChannelType::Presence && user_id is Some {
            left.touched(channel)
        } else {
            left
        }
    }

    /// Whether the others on a channel have to be told that a user left it: on a presence channel
    /// that no other connection of the user is on.
    pub open spec fn missed(
        self,
        channel: Seq<char>,
        id: Seq<char>,
        user_id: Option<Seq<char>>,
    ) -> bool {
        &&& channel_type(channel) == ChannelType::Presence
        &&& user_id is Some
        &&& !self.after_leave(channel, id, user_id).still_there(channel, user_id->0)
    }
}

impl ServerView {
    /// The server after a connection was forgotten.
    pub open spec fn forgot(self, app_id: Seq<char>, id: Seq<char>) -> ServerView {
        let ns = self.space(app_id);
        self.with_space(app_id, NamespaceView { sockets: ns.sockets.remove(id), ..ns })
    }

    /// Whether a connection that closes left a channel: `r` is the result of that, and `after` the
    /// server after it.
    pub open spec fn leaves(
        self,
        app_id: Seq<char>,
        id: Seq<char>,
        user_id: Option<Seq<char>>,
        channel: Seq<char>,
        r: Result<Departed>,
        after: ServerView,
    ) -> bool {
        let ns = self.space(app_id);
        let mid = self.with_space(app_id, ns.abandoned(channel, id, user_id));
        if !ns.missed(channel, id, user_id) {
            r matches Ok(Departed::Left) && after == mid
        } else {
            let message = member_removed(channel, user_id->0);
            if mid.space(app_id).all_take(channel, Some(id)) {
                &&& r matches Ok(Departed::Tell(todo))
                &&& todo@ == publication(self.node, app_id, channel, message, Some(id))
                &&& after == mid.after_broadcast(app_id, channel, message, Some(id))
            } else {
                &&& r matches Err(e)
                &&& e@ == writer_gone()
                &&& mid.broadcast_failed(app_id, channel, message, Some(id), after)
            }
        }
    }
}

/// The name of a presence channel starts with `presence-`, and no other does.
pub proof fn lemma_presence_prefix(name: Seq<char>)
    ensures
        channel_type(name) == ChannelType::Presence <==> "presence-"@.is_prefix_of(name),
{
    reveal_strlit("private-encrypted");
    reveal_strlit("private-");
    reveal_strlit("presence-");
    assert("private-encrypted"@[2] == 'i');
    assert("private-"@[2] == 'i');
    assert("presence-"@[2] == 'e');
    if "presence-"@.is_prefix_of(name) {
        assert(name[2] == "presence-"@[2]);
    }
    if "private-"@.is_prefix_of(name) {
        assert(name[2] == "private-"@[2]);
    }
}

impl ConnectionHandler {
    /// Begins to end a connection that closes, if it exists: what it gives back are the channels
    /// to leave.
    pub fn handle_disconnect(&mut self, app_id: &str, socket_id: &SocketId) -> (r: Option<Departure>)
        ensures
            final(self)@ == old(self)@.with_space(app_id@, old(self)@.space(app_id@)),
            match r {
                Some(d) => {
                    let ns = old(self)@.space(app_id@);
                    &&& ns.sockets.contains_key(socket_id@)
                    &&& d.app_id@ == app_id@
                    &&& d.socket_id@ == socket_id@
                    &&& opt_text(d.user_id) == ns.sockets[socket_id@].state.user_id
                    &&& named_order(
                        texts(d.channels@),
                        ns.sockets[socket_id@].state.subscribed_channels,
                    )
                    &&& d.next == 0
                },
                None => !old(self)@.space(app_id@).sockets.contains_key(socket_id@),
            },
    {
        let ghost ns = self@.space(app_id@);
        match self.connection_manager.get_connection(socket_id, app_id) {
            Some(conn) => {
                let d = Departure {
                    app_id: app_id.to_string(),
                    socket_id: socket_id.duplicate(),
                    user_id: copy_opt(&conn.state.user_id),
                    channels: conn.state.subscribed_channels.items(),
                    next: 0,
                };
                proof {
                    assert(ns.with_conn(socket_id@, ns.sockets[socket_id@]).sockets
                        =~= ns.sockets);
                }
                Some(d)
            },
            None => None,
        }
    }

    /// Leaves the next channel, or forgets the connection where none is left. A connection that
    /// refuses to be told of a member that left ends the attempt.
    pub fn depart(&mut self, d: &mut Departure) -> (r: Result<Departed>)
        requires
            old(d).next <= old(d).channels@.len(),
        ensures
            final(d).app_id == old(d).app_id,
            final(d).socket_id == old(d).socket_id,
            final(d).user_id == old(d).user_id,
            final(d).channels == old(d).channels,
            if old(d).next == old(d).channels@.len() {
                let ns = old(self)@.space(old(d).app_id@);
                let id = old(d).socket_id@;
                &&& final(d).next == old(d).next
                &&& r matches Ok(Departed::Gone(conn))
                &&& crate::model::opt_view(conn) == if ns.sockets.contains_key(id) {
                    Some(ns.sockets[id])
                } else {
                    None
                }
                &&& final(self)@ == old(self)@.forgot(old(d).app_id@, id)
            } else {
                &&& final(d).next == old(d).next + 1
                &&& old(self)@.leaves(
                    old(d).app_id@,
                    old(d).socket_id@,
                    opt_text(old(d).user_id),
                    old(d).channels@[old(d).next as int]@,
                    r,
                    final(self)@,
                )
            },
    {
        if d.next == d.channels.len() {
            let conn = self.connection_manager.remove_connection(&d.socket_id, d.app_id.as_str());
            return Ok(Departed::Gone(conn));
        }
        let at: usize = d.next;
        d.next = at + 1;
        self.leave_channel(
            d.app_id.as_str(),
            &d.socket_id,
            &d.user_id,
            d.channels[at].as_str(),
        )
    }

    /// Takes a connection that closes off a channel, and tells the others where a user left.
    fn leave_channel(
        &mut self,
        app_id: &str,
        socket_id: &SocketId,
        user_id: &Option<String>,
        channel: &str,
    ) -> (r: Result<Departed>)
        ensures
            old(self)@.leaves(
                app_id@,
                socket_id@,
                opt_text(*user_id),
                channel@,
                r,
                final(self)@,
            ),
    {
        let ghost start = self@;
        let ghost ns = start.space(app_id@);
        let ghost left = ns.after_leave(channel@, socket_id@, opt_text(*user_id));
        proof {
            lemma_presence_prefix(channel@);
        }
        let user = match user_id {
            Some(user) => Some(user.as_str()),
            None => None,
        };
        match self.channel_manager.unsubscribe(
            &mut self.connection_manager,
            socket_id,
            channel,
            app_id,
            user,
        ) {
            Ok(_) => {},
            Err(_) => return Ok(Departed::Left),
        }
        let user = match user_id {
            Some(user) => user,
            None => return Ok(Departed::Left),
        };
        if !starts_with(channel, "presence-") {
            return Ok(Departed::Left);
        }
        let members = self.connection_manager.get_channel_members(app_id, channel);
        let ghost mid = start.with_space(
            app_id@,
            ns.abandoned(channel@, socket_id@, opt_text(*user_id)),
        );
        assert(self@ =~= mid);
        if members.contains_key(user.as_str()) {
            proof {
                let id = choose|id: Seq<char>| #[trigger]
                    left.told_by(channel@, id) == Some(members@[user@]);
                assert(left.told_by(channel@, id) is Some);
            }
            return Ok(Departed::Left);
        }
        assert(!left.still_there(channel@, user@));
        let removed = Outgoing::MemberRemoved {
            channel: channel.to_string(),
            user_id: user.clone(),
        };
        match self.connection_manager.broadcast(channel, removed, Some(socket_id), app_id) {
            Ok(publication) => {
                assert(self@ =~= mid.after_broadcast(
                    app_id@,
                    channel@,
                    member_removed(channel@, user@),
                    Some(socket_id@),
                ));
                Ok(Departed::Tell(publication))
            },
            Err(e) => {
                proof {
                    let after = choose|after: NamespaceView| #[trigger]
                        mid.space(app_id@).broadcast_in_part(
                            channel@,
                            member_removed(channel@, user@),
                            Some(socket_id@),
                            after,
                        ) && self.connection_manager.spaces() == mid.spaces.insert(app_id@, after);
                    assert(self@ == mid.with_space(app_id@, after));
                }
                Err(e)
            },
        }
    }
}

impl NamespaceView {
    /// The namespace after a connection that closes left a channel, and all that have to be told of
    /// it were.
    pub open spec fn left_behind(
        self,
        channel: Seq<char>,
        id: Seq<char>,
        user_id: Option<Seq<char>>,
    ) -> NamespaceView {
        let mid = self.abandoned(channel, id, user_id);
        if self.missed(channel, id, user_id) {
            mid.broadcast(channel, member_removed(channel, user_id->0), Some(id))
        } else {
            mid
        }
    }

    /// The namespace after a connection that closes left `channels`, one after the other.
    pub open spec fn left_all(
        self,
        channels: Seq<Seq<char>>,
        id: Seq<char>,
        user_id: Option<Seq<char>>,
    ) -> NamespaceView
        decreases channels.len(),
    {
        if channels.len() == 0 {
            self
        } else {
            self.left_all(channels.drop_last(), id, user_id).left_behind(
                channels.last(),
                id,
                user_id,
            )
        }
    }
}

/// A step by which a connection that closes leaves a channel leaves the channel behind, and tells the
/// others, unless one of them refuses to be told.
pub proof fn step_leaves_the_channel_behind(
    server: ServerView,
    app_id: Seq<char>,
    id: Seq<char>,
    user_id: Option<Seq<char>>,
    channel: Seq<char>,
    r: Result<Departed>,
    after: ServerView,
)
    requires
        server.leaves(app_id, id, user_id, channel, r, after),
    ensures
        r is Ok ==> after == server.with_space(
            app_id,
            server.space(app_id).left_behind(channel, id, user_id),
        ),
        r is Err <==> server.space(app_id).missed(channel, id, user_id) && !server.space(
            app_id,
        ).abandoned(channel, id, user_id).all_take(channel, Some(id)),
{
}

/// Who is on which channel after a connection that closes left one: the connection is off it, and
/// nothing else has changed.
pub proof fn leaving_changes_one_subscription(
    ns: NamespaceView,
    channel: Seq<char>,
    id: Seq<char>,
    user_id: Option<Seq<char>>,
    c: Seq<char>,
    other: Seq<char>,
)
    ensures
        ns.left_behind(channel, id, user_id).room(c).sockets.contains(other) <==> ns.room(
            c,
        ).sockets.contains(other) && !(c == channel && other == id),
{
    let left = ns.after_leave(channel, id, user_id);
    let rest = ns.room(channel).exited(channel, id, user_id).sockets;
    assert(rest == ns.room(channel).sockets.remove(id));
    if rest == Set::<Seq<char>>::empty() {
        assert(!rest.contains(other));
    }
    assert(left.room(c).sockets.contains(other) <==> ns.room(c).sockets.contains(other) && !(c
        == channel && other == id));
}

/// A connection that closes is on none of the channels that it left, and every other connection is
/// on the channels that it was on.
pub proof fn departed_connection_is_on_no_channel(
    ns: NamespaceView,
    channels: Seq<Seq<char>>,
    id: Seq<char>,
    user_id: Option<Seq<char>>,
    c: Seq<char>,
    other: Seq<char>,
)
    ensures
        channels.contains(c) ==> !ns.left_all(channels, id, user_id).room(c).sockets.contains(id),
        other != id ==> (ns.left_all(channels, id, user_id).room(c).sockets.contains(other)
            <==> ns.room(c).sockets.contains(other)),
        !channels.contains(c) ==> (ns.left_all(channels, id, user_id).room(c).sockets.contains(id)
            <==> ns.room(c).sockets.contains(id)),
    decreases channels.len(),
{
    if channels.len() > 0 {
        let rest = channels.drop_last();
        let before = ns.left_all(rest, id, user_id);
        departed_connection_is_on_no_channel(ns, rest, id, user_id, c, other);
        leaving_changes_one_subscription(before, channels.last(), id, user_id, c, other);
        leaving_changes_one_subscription(before, channels.last(), id, user_id, c, id);
        assert(channels =~= rest.push(channels.last()));
        crate::table::lemma_push_contains(rest, channels.last(), c);
    }
}

} // verus!
