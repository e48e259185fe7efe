//! The connections, channels and users of one application on one server.

use vstd::prelude::*;

use crate::app::config::{App, AppView};
use crate::channel::types::{MemberView, PresenceMemberInfo};
use crate::error::{outcome, Error, ErrorView, Result};
use crate::json::JsonView;
use crate::model::{opt_view, Duplicate};
use crate::protocol::{Frame, FrameView, Outgoing, OutgoingView};
use crate::table::{lemma_push_contains, named_order, Dict, NameSet, Table};
use crate::text::{same, texts};
use crate::websocket::{writer_gone, ConnView, SocketId, StateView, WebSocket};

verus! {

/// A channel: the connections that are subscribed to it and, on a presence channel, the users.
pub struct ChannelData {
    pub sockets: NameSet,
    pub presence_members: Option<Table<PresenceMemberInfo>>,
}

/// A channel by its view.
#[verifier::ext_equal]
pub struct RoomView {
    pub sockets: Set<Seq<char>>,
    pub presence_members: Option<Map<Seq<char>, MemberView>>,
}

impl View for ChannelData {
    type V = RoomView;

    open spec fn view(&self) -> RoomView {
        RoomView { sockets: self.sockets@, presence_members: opt_view(self.presence_members) }
    }
}

impl RoomView {
    /// A channel without subscribers.
    pub open spec fn empty() -> RoomView {
        RoomView { sockets: Set::empty(), presence_members: None }
    }
}

impl ChannelData {
    /// A channel without subscribers.
    pub fn new() -> (r: Self)
        ensures
            r@ == RoomView::empty(),
    {
        ChannelData { sockets: NameSet::new(), presence_members: None }
    }
}

/// The connections, channels and users of one application.
pub struct Namespace {
    pub app_id: String,
    pub sockets: Table<WebSocket>,
    pub channels: Table<ChannelData>,
    pub users: Table<NameSet>,
}

/// The connections, channels and users of one application, by their views.
#[verifier::ext_equal]
pub struct NamespaceView {
    pub app_id: Seq<char>,
    pub sockets: Map<Seq<char>, ConnView>,
    pub channels: Map<Seq<char>, RoomView>,
    pub users: Map<Seq<char>, Set<Seq<char>>>,
}

impl View for Namespace {
    type V = NamespaceView;

    open spec fn view(&self) -> NamespaceView {
        NamespaceView {
            app_id: self.app_id@,
            sockets: self.sockets@,
            channels: self.channels@,
            users: self.users@,
        }
    }
}

/// The channels without the connections `gone`, and without the channels that nobody is left on.
pub open spec fn without_sockets(
    channels: Map<Seq<char>, RoomView>,
    gone: Set<Seq<char>>,
) -> Map<Seq<char>, RoomView> {
    Map::new(
        |c: Seq<char>|
            channels.contains_key(c) && channels[c].sockets.difference(gone) != Set::<
                Seq<char>,
            >::empty(),
        |c: Seq<char>| RoomView { sockets: channels[c].sockets.difference(gone), ..channels[c] },
    )
}

/// The users without the connections `gone`, and without the users that have none left.
pub open spec fn without_connections(
    users: Map<Seq<char>, Set<Seq<char>>>,
    gone: Set<Seq<char>>,
) -> Map<Seq<char>, Set<Seq<char>>> {
    Map::new(
        |u: Seq<char>|
            users.contains_key(u) && users[u].difference(gone) != Set::<Seq<char>>::empty(),
        |u: Seq<char>| users[u].difference(gone),
    )
}

/// The message that a connection gets before the server closes it.
pub open spec fn disconnect_notice() -> FrameView {
    FrameView::Text(
        OutgoingView::Error {
            code: 4009,
            message: "You got disconnected by the application"@,
            channel: None,
        },
    )
}

/// The id of the user that signed in over a connection.
pub open spec fn user_id_of(user: JsonView) -> Option<Seq<char>> {
    user.get_str("id"@)
}

impl NamespaceView {
    /// A namespace without connections.
    pub open spec fn empty(app_id: Seq<char>) -> NamespaceView {
        NamespaceView { app_id, sockets: Map::empty(), channels: Map::empty(), users: Map::empty() }
    }

    /// The channel with this name; one that does not exist has no subscribers.
    pub open spec fn room(self, channel: Seq<char>) -> RoomView {
        if self.channels.contains_key(channel) {
            self.channels[channel]
        } else {
            RoomView::empty()
        }
    }

    /// The namespace after a channel was looked up: a channel that did not exist then does.
    pub open spec fn touched(self, channel: Seq<char>) -> NamespaceView {
        NamespaceView { channels: self.channels.insert(channel, self.room(channel)), ..self }
    }

    /// The namespace after a connection came in, where `app` is what is known of the application.
    pub open spec fn with_socket(self, id: Seq<char>, app: Option<AppView>) -> NamespaceView {
        let fresh = ConnView::fresh(id);
        NamespaceView {
            sockets: self.sockets.insert(
                id,
                ConnView { state: StateView { app, ..fresh.state }, ..fresh },
            ),
            ..self
        }
    }

    /// The namespace with another state of a connection.
    pub open spec fn with_conn(self, id: Seq<char>, conn: ConnView) -> NamespaceView {
        NamespaceView { sockets: self.sockets.insert(id, conn), ..self }
    }

    /// The namespace with another state of a channel.
    pub open spec fn with_room(self, channel: Seq<char>, room: RoomView) -> NamespaceView {
        NamespaceView { channels: self.channels.insert(channel, room), ..self }
    }

    /// The namespace after the connections in `ids` were handed a frame.
    pub open spec fn handed(self, ids: Set<Seq<char>>, frame: FrameView) -> NamespaceView {
        NamespaceView {
            sockets: self.sockets.map_entries(
                |id: Seq<char>, conn: ConnView| if ids.contains(id) { conn.handed(frame) } else { conn },
            ),
            ..self
        }
    }

    /// The connections that a message to a channel goes to.
    pub open spec fn targets(self, channel: Seq<char>, except: Option<Seq<char>>) -> Set<Seq<char>> {
        self.room(channel).sockets.filter(
            |id: Seq<char>| self.sockets.contains_key(id) && except != Some(id),
        )
    }

    /// Whether every connection that a message to a channel goes to takes it.
    pub open spec fn all_take(self, channel: Seq<char>, except: Option<Seq<char>>) -> bool {
        forall|id: Seq<char>| #[trigger]
            self.targets(channel, except).contains(id) ==> self.sockets[id].open
    }

    /// The namespace after a message to a channel reached all that it goes to.
    pub open spec fn broadcast(
        self,
        channel: Seq<char>,
        message: OutgoingView,
        except: Option<Seq<char>>,
    ) -> NamespaceView {
        self.touched(channel).handed(self.targets(channel, except), FrameView::Text(message))
    }

    /// What may be left of the namespace after a message to a channel was refused by a connection:
    /// some of those that it goes to have got it.
    pub open spec fn broadcast_in_part(
        self,
        channel: Seq<char>,
        message: OutgoingView,
        except: Option<Seq<char>>,
        after: NamespaceView,
    ) -> bool {
        exists|got: Set<Seq<char>>|
            got.subset_of(self.targets(channel, except)) && after == #[trigger] self.touched(
                channel,
            ).handed(got, FrameView::Text(message))
    }

    /// The namespace after a connection joined a channel.
    pub open spec fn joined(self, channel: Seq<char>, id: Seq<char>) -> NamespaceView {
        let room = self.room(channel);
        self.with_room(channel, RoomView { sockets: room.sockets.insert(id), ..room })
    }

    /// The namespace after a connection left a channel: one that nobody is left on is gone.
    pub open spec fn left(self, channel: Seq<char>, id: Seq<char>) -> NamespaceView {
        if !self.channels.contains_key(channel) {
            self
        } else {
            let room = self.channels[channel];
            let rest = room.sockets.remove(id);
            if rest == Set::<Seq<char>>::empty() {
                NamespaceView { channels: self.channels.remove(channel), ..self }
            } else {
                self.with_room(channel, RoomView { sockets: rest, ..room })
            }
        }
    }

    /// The namespace without the connections `gone`.
    pub open spec fn without(self, gone: Set<Seq<char>>) -> NamespaceView {
        NamespaceView {
            app_id: self.app_id,
            sockets: self.sockets.remove_keys(gone),
            channels: without_sockets(self.channels, gone),
            users: without_connections(self.users, gone),
        }
    }

    /// A connection as it is when it is taken out: told that it was disconnected, and closed.
    pub open spec fn taken_out(self, id: Seq<char>) -> Option<ConnView> {
        if self.sockets.contains_key(id) {
            Some(
                self.sockets[id].handed(disconnect_notice()).handed(FrameView::Close(4009)),
            )
        } else {
            None
        }
    }

    /// The connections of a user.
    pub open spec fn connections_of(self, user_id: Seq<char>) -> Set<Seq<char>> {
        if self.users.contains_key(user_id) {
            self.users[user_id]
        } else {
            Set::empty()
        }
    }

    /// Whether every connection of a user exists.
    pub open spec fn user_is_connected(self, user_id: Seq<char>) -> bool {
        self.connections_of(user_id).subset_of(self.sockets.dom())
    }

    /// The namespace after every connection of a user was taken out.
    pub open spec fn without_user_connections(self, user_id: Seq<char>) -> NamespaceView {
        if self.connections_of(user_id) == Set::<Seq<char>>::empty() {
            self
        } else {
            self.without(self.connections_of(user_id))
        }
    }

    /// What the attempt to hand a connection a message gives.
    pub open spec fn send_outcome(self, id: Seq<char>) -> std::result::Result<(), ErrorView> {
        if self.sockets.contains_key(id) && !self.sockets[id].open {
            Err(writer_gone())
        } else {
            Ok(())
        }
    }

    /// The connection exists, and has joined a presence channel.
    pub open spec fn has_presence(self, id: Seq<char>) -> bool {
        self.sockets.contains_key(id) && self.sockets[id].state.presence is Some
    }

    /// What a connection on a channel tells of its user.
    pub open spec fn told_by(self, channel: Seq<char>, id: Seq<char>) -> Option<MemberView> {
        if self.room(channel).sockets.contains(id) && self.sockets.contains_key(id) {
            self.sockets[id].state.member_on(channel)
        } else {
            None
        }
    }

    /// Whether `members` are the users on a channel: each user that a connection on the channel
    /// tells of, and no other, with what one of the user's connections tells.
    pub open spec fn are_members(
        self,
        channel: Seq<char>,
        members: Map<Seq<char>, MemberView>,
    ) -> bool {
        &&& forall|u: Seq<char>| #[trigger]
            members.contains_key(u) ==> members[u].user_id == u && exists|id: Seq<char>|
                #[trigger] self.told_by(channel, id) == Some(members[u])
        &&& forall|id: Seq<char>|
            #![trigger self.told_by(channel, id)]
            self.told_by(channel, id) is Some ==> members.contains_key(
                self.told_by(channel, id)->0.user_id,
            )
    }

    /// The namespace after the user of a connection was noted.
    pub open spec fn with_user(self, user_id: Seq<char>, id: Seq<char>) -> NamespaceView {
        NamespaceView {
            users: self.users.insert(user_id, self.connections_of(user_id).insert(id)),
            ..self
        }
    }

    /// The namespace after a connection of a user was struck out: a user without any is gone.
    pub open spec fn without_user(self, user_id: Seq<char>, id: Seq<char>) -> NamespaceView {
        if !self.users.contains_key(user_id) {
            self
        } else {
            let rest = self.users[user_id].remove(id);
            if rest == Set::<Seq<char>>::empty() {
                NamespaceView { users: self.users.remove(user_id), ..self }
            } else {
                NamespaceView { users: self.users.insert(user_id, rest), ..self }
            }
        }
    }
}

impl Namespace {
    /// A namespace without connections.
    pub fn new(app_id: String) -> (r: Self)
        ensures
            r@ == NamespaceView::empty(app_id@),
    {
        Namespace { app_id, sockets: Table::new(), channels: Table::new(), users: Table::new() }
    }

    /// Takes a connection in. `app` is the outcome of the search for the application: a connection
    /// to an application that does not exist is not taken in, and one whose application could not
    /// be looked up is taken in without it. Says whether the connection was taken in.
    pub fn add_socket(&mut self, socket_id: SocketId, app: Result<Option<App>>) -> (r: bool)
        ensures
            match app {
                Ok(Some(found)) => r && final(self)@ == old(self)@.with_socket(
                    socket_id@,
                    Some(found@),
                ),
                Ok(None) => !r && final(self)@ == old(self)@,
                Err(_) => r && final(self)@ == old(self)@.with_socket(socket_id@, None),
            },
    {
        let found = match app {
            Ok(Some(app)) => Some(app),
            Ok(None) => return false,
            Err(_) => None,
        };
        let id = socket_id.0.clone();
        let mut connection = WebSocket::new(socket_id);
        connection.state.app = found;
        self.sockets.insert(id, connection);
        true
    }

    /// The connection with this id.
    pub fn get_connection(&self, socket_id: &SocketId) -> (r: Option<&WebSocket>)
        ensures
            match r {
                Some(conn) => self@.sockets.contains_key(socket_id@) && conn@
                    == self@.sockets[socket_id@],
                None => !self@.sockets.contains_key(socket_id@),
            },
    {
        self.sockets.get(socket_id.0.as_str())
    }

    /// The connection with this id, to be changed in place.
    pub fn get_connection_mut(&mut self, socket_id: &SocketId) -> (r: Option<&mut WebSocket>)
        ensures
            match r {
                Some(conn) => {
                    &&& old(self)@.sockets.contains_key(socket_id@)
                    &&& conn@ == old(self)@.sockets[socket_id@]
                    &&& final(self)@ == old(self)@.with_conn(socket_id@, final(conn)@)
                },
                None => !old(self)@.sockets.contains_key(socket_id@) && final(self)@ == old(self)@,
            },
    {
        self.sockets.get_mut(socket_id.0.as_str())
    }

    /// The connection with this id, where it is on the channel.
    pub fn get_connection_from_channel(&self, channel: &str, socket_id: &SocketId) -> (r: Option<
        &WebSocket,
    >)
        ensures
            match r {
                Some(conn) => {
                    &&& self@.room(channel@).sockets.contains(socket_id@)
                    &&& self@.sockets.contains_key(socket_id@)
                    &&& conn@ == self@.sockets[socket_id@]
                },
                None => !self@.room(channel@).sockets.contains(socket_id@)
                    || !self@.sockets.contains_key(socket_id@),
            },
    {
        match self.channels.get(channel) {
            Some(data) => if data.sockets.contains(socket_id.0.as_str()) {
                self.get_connection(socket_id)
            } else {
                None
            },
            None => None,
        }
    }

    /// Hands a connection a message. A connection that does not exist gets nothing, and that is no
    /// error.
    pub fn send_message(&mut self, socket_id: &SocketId, message: Outgoing) -> (r: Result<()>)
        ensures
            final(self)@ == old(self)@.handed(set![socket_id@], FrameView::Text(message@)),
            outcome(r) == old(self)@.send_outcome(socket_id@),
    {
        let ghost frame = FrameView::Text(message@);
        match self.sockets.get_mut(socket_id.0.as_str()) {
            Some(conn) => {
                let r = conn.send(Frame::Text(message));
                assert(self@.sockets =~= old(self)@.handed(set![socket_id@], frame).sockets);
                r
            },
            None => {
                assert(self@.sockets =~= old(self)@.handed(set![socket_id@], frame).sockets);
                Ok(())
            },
        }
    }

    /// Hands a message to every connection on a channel, but to `except`. Where one of them refuses
    /// it, the message goes to no further ones; which have got it by then is left open.
    pub fn broadcast(
        &mut self,
        channel: &str,
        message: &Outgoing,
        except: Option<&SocketId>,
    ) -> (r: Result<()>)
        ensures
            outcome(r) == if old(self)@.all_take(channel@, opt_id(except)) {
                Ok(())
            } else {
                Err(writer_gone())
            },
            r is Ok ==> final(self)@ == old(self)@.broadcast(channel@, message@, opt_id(except)),
            r is Err ==> old(self)@.broadcast_in_part(
                channel@,
                message@,
                opt_id(except),
                final(self)@,
            ),
    {
        let members = self.get_channel(channel);
        let ids = members.items();
        let ghost start = old(self)@;
        let ghost frame = FrameView::Text(message@);
        let ghost targets = start.targets(channel@, opt_id(except));
        let ghost mut got: Set<Seq<char>> = Set::empty();
        assert(self@ == start.touched(channel@).handed(got, frame)) by {
            assert(start.touched(channel@).handed(got, frame).sockets =~= start.sockets);
        }
        let mut i: usize = 0;
        while i < ids.len()
            invariant
                i <= ids@.len(),
                start == old(self)@,
                texts(ids@).no_duplicates(),
                texts(ids@).to_set() == start.room(channel@).sockets,
                frame == FrameView::Text(message@),
                targets == start.targets(channel@, opt_id(except)),
                got == targets.intersect(texts(ids@).take(i as int).to_set()),
                forall|id: Seq<char>| #[trigger] got.contains(id) ==> start.sockets[id].open,
                self@ == start.touched(channel@).handed(got, frame),
            decreases ids@.len() - i,
        {
            let ghost id = ids@[i as int]@;
            let ghost seen = texts(ids@).take(i as int);
            proof {
                assert(texts(ids@)[i as int] == id);
                assert(texts(ids@).take(i + 1) =~= seen.push(id));
                assert forall|k: Seq<char>|
                    texts(ids@).take(i + 1).contains(k) <==> (seen.contains(k) || k == id) by {
                    lemma_push_contains(seen, id, k);
                }
                assert(!seen.contains(id)) by {
                    if seen.contains(id) {
                        let j = choose|j: int| 0 <= j < seen.len() && seen[j] == id;
                        assert(texts(ids@)[j] == id);
                    }
                }
                assert(texts(ids@).to_set().contains(id));
            }
            let skip = match except {
                Some(other) => same(other.0.as_str(), ids[i].as_str()),
                None => false,
            };
            if !skip {
                match self.sockets.get_mut(ids[i].as_str()) {
                    Some(conn) => {
                        assert(targets.contains(id));
                        let sent = conn.send(Frame::Text(message.duplicate()));
                        proof {
                            let grown = got.insert(id);
                            assert(self@.sockets =~= start.touched(channel@).handed(
                                grown,
                                frame,
                            ).sockets);
                        }
                        match sent {
                            Ok(()) => {
                                proof {
                                    got = got.insert(id);
                                    assert(got =~= targets.intersect(
                                        texts(ids@).take(i + 1).to_set(),
                                    ));
                                }
                            },
                            Err(e) => {
                                proof {
                                    assert(!start.sockets[id].open);
                                    assert(self@ == start.touched(channel@).handed(
                                        got.insert(id),
                                        frame,
                                    ));
                                    assert(got.insert(id).subset_of(targets));
                                }
                                return Err(e);
                            },
                        }
                    },
                    None => {
                        assert(got =~= targets.intersect(texts(ids@).take(i + 1).to_set()));
                    },
                }
            } else {
                assert(got =~= targets.intersect(texts(ids@).take(i + 1).to_set()));
            }
            i = i + 1;
        }
        proof {
            assert(texts(ids@).take(i as int) =~= texts(ids@));
            assert(got =~= targets);
        }
        Ok(())
    }

    /// The users on a presence channel, each with what one of the user's connections on the channel
    /// tells.
    pub fn get_channel_members(&mut self, channel: &str) -> (r: Dict<PresenceMemberInfo>)
        ensures
            old(self)@.are_members(channel@, r@),
            final(self)@ == old(self)@.touched(channel@),
    {
        let members = self.get_channel(channel);
        let ids = members.items();
        let ghost start = old(self)@;
        let mut r: Dict<PresenceMemberInfo> = Dict::new();
        let mut i: usize = 0;
        while i < ids.len()
            invariant
                i <= ids@.len(),
                texts(ids@).to_set() == start.room(channel@).sockets,
                self@ == start.touched(channel@),
                forall|u: Seq<char>| #[trigger]
                    r@.contains_key(u) ==> r@[u].user_id == u && exists|id: Seq<char>|
                        #[trigger] start.told_by(channel@, id) == Some(r@[u]),
                forall|j: int|
                    #![trigger texts(ids@)[j]]
                    0 <= j < i && start.told_by(channel@, texts(ids@)[j]) is Some
                        ==> r@.contains_key(start.told_by(channel@, texts(ids@)[j])->0.user_id),
            decreases ids@.len() - i,
        {
            assert(texts(ids@)[i as int] == ids@[i as int]@);
            assert(texts(ids@).to_set().contains(ids@[i as int]@));
            match self.sockets.get(ids[i].as_str()) {
                Some(conn) => match &conn.state.presence {
                    Some(map) => match map.get(channel) {
                        Some(info) => {
                            let copy = info.duplicate();
                            assert(start.told_by(channel@, ids@[i as int]@) == Some(copy@));
                            r.insert(copy.user_id.clone(), copy);
                        },
                        None => {},
                    },
                    None => {},
                },
                None => {},
            }
            i = i + 1;
        }
        proof {
            assert forall|id: Seq<char>|
                #![trigger start.told_by(channel@, id)]
                start.told_by(channel@, id) is Some implies r@.contains_key(
                start.told_by(channel@, id)->0.user_id,
            ) by {
                assert(texts(ids@).to_set().contains(id));
                let j = choose|j: int| 0 <= j < texts(ids@).len() && texts(ids@)[j] == id;
                assert(texts(ids@)[j] == id);
            }
        }
        r
    }

    /// The connections on a channel.
    pub fn get_channel_sockets(&self, channel: &str) -> (r: NameSet)
        ensures
            r@ == self@.targets(channel@, None),
    {
        let mut r = NameSet::new();
        match self.channels.get(channel) {
            Some(data) => {
                let ids = data.sockets.items();
                let mut i: usize = 0;
                while i < ids.len()
                    invariant
                        i <= ids@.len(),
                        texts(ids@).to_set() == self@.room(channel@).sockets,
                        r@ == self@.targets(channel@, None).intersect(
                            texts(ids@).take(i as int).to_set(),
                        ),
                    decreases ids@.len() - i,
                {
                    let ghost id = ids@[i as int]@;
                    let ghost seen = texts(ids@).take(i as int);
                    proof {
                        assert(texts(ids@)[i as int] == id);
                        assert(texts(ids@).to_set().contains(id));
                        assert(texts(ids@).take(i + 1) =~= seen.push(id));
                        assert forall|k: Seq<char>|
                            texts(ids@).take(i + 1).contains(k) <==> (seen.contains(k) || k
                                == id) by {
                            lemma_push_contains(seen, id, k);
                        }
                    }
                    if self.sockets.contains_key(ids[i].as_str()) {
                        r.insert(ids[i].clone());
                    }
                    i = i + 1;
                    assert(r@ =~= self@.targets(channel@, None).intersect(
                        texts(ids@).take(i as int).to_set(),
                    ));
                }
                assert(texts(ids@).take(i as int) =~= texts(ids@));
                assert(r@ =~= self@.targets(channel@, None));
            },
            None => {
                assert(r@ =~= self@.targets(channel@, None));
            },
        }
        r
    }

    /// Whether every connection of a user exists.
    pub fn user_sockets_exist(&self, user_id: &str) -> (r: bool)
        ensures
            r == self@.user_is_connected(user_id@),
    {
        match self.users.get(user_id) {
            Some(set) => {
                let ids = set.items();
                let mut i: usize = 0;
                while i < ids.len()
                    invariant
                        i <= ids@.len(),
                        texts(ids@).to_set() == self@.connections_of(user_id@),
                        forall|j: int|
                            0 <= j < i ==> self@.sockets.contains_key(#[trigger] texts(ids@)[j]),
                    decreases ids@.len() - i,
                {
                    assert(texts(ids@)[i as int] == ids@[i as int]@);
                    if !self.sockets.contains_key(ids[i].as_str()) {
                        assert(texts(ids@).to_set().contains(ids@[i as int]@));
                        return false;
                    }
                    i = i + 1;
                }
                proof {
                    assert forall|id: Seq<char>| self@.connections_of(user_id@).contains(
                        id,
                    ) implies self@.sockets.dom().contains(id) by {
                        assert(texts(ids@).to_set().contains(id));
                        let j = choose|j: int| 0 <= j < texts(ids@).len() && texts(ids@)[j] == id;
                        assert(self@.sockets.contains_key(texts(ids@)[j]));
                    }
                }
                true
            },
            None => true,
        }
    }

    /// The connections of a user, all of which exist.
    pub fn get_user_sockets(&self, user_id: &str) -> (r: NameSet)
        requires
            self@.user_is_connected(user_id@),
        ensures
            r@ == self@.connections_of(user_id@),
    {
        match self.users.get(user_id) {
            Some(ids) => ids.copy(),
            None => NameSet::new(),
        }
    }

    /// Strikes a connection out of the channels, and out the channels that nobody is left on.
    fn clear_channels(&mut self, socket_id: &str)
        ensures
            final(self)@ == (NamespaceView {
                channels: without_sockets(old(self)@.channels, set![socket_id@]),
                ..old(self)@
            }),
    {
        let ghost start = self.channels@;
        let ghost gone = set![socket_id@];
        let names = self.channels.keys();
        let mut i: usize = 0;
        while i < names.len()
            invariant
                i <= names@.len(),
                gone == set![socket_id@],
                texts(names@).no_duplicates(),
                texts(names@).to_set() == start.dom(),
                self.app_id == old(self).app_id,
                self.sockets == old(self).sockets,
                self.users == old(self).users,
                forall|c: Seq<char>| #[trigger]
                    self.channels@.contains_key(c) <==> start.contains_key(c) && (texts(
                        names@,
                    ).take(i as int).contains(c) ==> start[c].sockets.difference(gone) != Set::<
                        Seq<char>,
                    >::empty()),
                forall|c: Seq<char>| #[trigger]
                    self.channels@.contains_key(c) ==> self.channels@[c] == if texts(names@).take(
                        i as int,
                    ).contains(c) {
                        RoomView { sockets: start[c].sockets.difference(gone), ..start[c] }
                    } else {
                        start[c]
                    },
            decreases names@.len() - i,
        {
            let ghost name = names@[i as int]@;
            let ghost seen = texts(names@).take(i as int);
            proof {
                assert(texts(names@)[i as int] == name);
                assert(texts(names@).to_set().contains(name));
                assert(texts(names@).take(i + 1) =~= seen.push(name));
                assert forall|k: Seq<char>|
                    texts(names@).take(i + 1).contains(k) <==> (seen.contains(k) || k == name) by {
                    lemma_push_contains(seen, name, k);
                }
                assert(!seen.contains(name)) by {
                    if seen.contains(name) {
                        let j = choose|j: int| 0 <= j < seen.len() && seen[j] == name;
                        assert(texts(names@)[j] == name);
                    }
                }
                assert(start[name].sockets.remove(socket_id@) =~= start[name].sockets.difference(
                    gone,
                ));
            }
            let mut vacant = false;
            match self.channels.get_mut(names[i].as_str()) {
                Some(data) => {
                    data.sockets.remove(socket_id);
                    vacant = data.sockets.is_empty();
                },
                None => {},
            }
            if vacant {
                self.channels.remove(names[i].as_str());
            }
            i = i + 1;
        }
        proof {
            assert(texts(names@).take(i as int) =~= texts(names@));
            assert forall|c: Seq<char>| start.contains_key(c) implies #[trigger] texts(
                names@,
            ).contains(c) by {
                assert(texts(names@).to_set().contains(c));
            }
            assert(self.channels@ =~= without_sockets(start, gone));
        }
    }

    /// Strikes a connection out of the users, and out the users that have none left.
    fn clear_users(&mut self, socket_id: &str)
        ensures
            final(self)@ == (NamespaceView {
                users: without_connections(old(self)@.users, set![socket_id@]),
                ..old(self)@
            }),
    {
        let ghost start = self.users@;
        let ghost gone = set![socket_id@];
        let names = self.users.keys();
        let mut i: usize = 0;
        while i < names.len()
            invariant
                i <= names@.len(),
                gone == set![socket_id@],
                texts(names@).no_duplicates(),
                texts(names@).to_set() == start.dom(),
                self.app_id == old(self).app_id,
                self.sockets == old(self).sockets,
                self.channels == old(self).channels,
                forall|c: Seq<char>| #[trigger]
                    self.users@.contains_key(c) <==> start.contains_key(c) && (texts(names@).take(
                        i as int,
                    ).contains(c) ==> start[c].difference(gone) != Set::<Seq<char>>::empty()),
                forall|c: Seq<char>| #[trigger]
                    self.users@.contains_key(c) ==> self.users@[c] == if texts(names@).take(
                        i as int,
                    ).contains(c) {
                        start[c].difference(gone)
                    } else {
                        start[c]
                    },
            decreases names@.len() - i,
        {
            let ghost name = names@[i as int]@;
            let ghost seen = texts(names@).take(i as int);
            proof {
                assert(texts(names@)[i as int] == name);
                assert(texts(names@).to_set().contains(name));
                assert(texts(names@).take(i + 1) =~= seen.push(name));
                assert forall|k: Seq<char>|
                    texts(names@).take(i + 1).contains(k) <==> (seen.contains(k) || k == name) by {
                    lemma_push_contains(seen, name, k);
                }
                assert(!seen.contains(name)) by {
                    if seen.contains(name) {
                        let j = choose|j: int| 0 <= j < seen.len() && seen[j] == name;
                        assert(texts(names@)[j] == name);
                    }
                }
                assert(start[name].remove(socket_id@) =~= start[name].difference(gone));
            }
            let mut vacant = false;
            match self.users.get_mut(names[i].as_str()) {
                Some(data) => {
                    data.remove(socket_id);
                    vacant = data.is_empty();
                },
                None => {},
            }
            if vacant {
                self.users.remove(names[i].as_str());
            }
            i = i + 1;
        }
        proof {
            assert(texts(names@).take(i as int) =~= texts(names@));
            assert forall|c: Seq<char>| start.contains_key(c) implies #[trigger] texts(
                names@,
            ).contains(c) by {
                assert(texts(names@).to_set().contains(c));
            }
            assert(self.users@ =~= without_connections(start, gone));
        }
    }

    /// Takes a connection out: tells it that it was disconnected, closes it, and strikes it out of
    /// every channel and of its user. Gives the connection back with what it has still to write.
    pub fn cleanup_connection(&mut self, socket_id: &SocketId) -> (r: Option<WebSocket>)
        ensures
            final(self)@ == old(self)@.without(set![socket_id@]),
            opt_view(r) == old(self)@.taken_out(socket_id@),
    {
        self.clear_channels(socket_id.0.as_str());
        self.clear_users(socket_id.0.as_str());
        let gone = self.sockets.remove(socket_id.0.as_str());
        assert(self@.sockets =~= old(self)@.without(set![socket_id@]).sockets);
        match gone {
            Some(mut conn) => {
                let notice = Outgoing::Error {
                    code: 4009,
                    message: "You got disconnected by the application".to_string(),
                    channel: None,
                };
                let _ = conn.send(Frame::Text(notice));
                let _ = conn.send(Frame::Close(4009));
                Some(conn)
            },
            None => None,
        }
    }

    /// Adds a connection to a channel, and says whether it was not on it before.
    pub fn add_channel_to_socket(&mut self, channel: &str, socket_id: &SocketId) -> (r: bool)
        ensures
            final(self)@ == old(self)@.joined(channel@, socket_id@),
            r == !old(self)@.room(channel@).sockets.contains(socket_id@),
    {
        if !self.channels.contains_key(channel) {
            self.channels.insert(channel.to_string(), ChannelData::new());
        }
        match self.channels.get_mut(channel) {
            Some(data) => {
                let r = data.sockets.insert(socket_id.0.clone());
                assert(self@.channels =~= old(self)@.joined(channel@, socket_id@).channels);
                r
            },
            None => false,
        }
    }

    /// Takes a connection off a channel. A channel that nobody is left on is gone.
    pub fn remove_channel_from_socket(&mut self, channel: &str, socket_id: &SocketId) -> (r: bool)
        ensures
            final(self)@ == old(self)@.left(channel@, socket_id@),
            r,
    {
        let mut vacant = false;
        match self.channels.get_mut(channel) {
            Some(data) => {
                data.sockets.remove(socket_id.0.as_str());
                vacant = data.sockets.is_empty();
            },
            None => {},
        }
        if vacant {
            self.channels.remove(channel);
            assert(self@.channels =~= old(self)@.channels.remove(channel@));
        }
        true
    }

    /// Forgets a connection, and gives it back with what it has still to write.
    pub fn remove_connection(&mut self, socket_id: &SocketId) -> (r: Option<WebSocket>)
        ensures
            final(self)@ == (NamespaceView {
                sockets: old(self)@.sockets.remove(socket_id@),
                ..old(self)@
            }),
            match r {
                Some(conn) => old(self)@.sockets.contains_key(socket_id@) && conn@
                    == old(self)@.sockets[socket_id@],
                None => !old(self)@.sockets.contains_key(socket_id@),
            },
    {
        self.sockets.remove(socket_id.0.as_str())
    }

    /// The connections that are subscribed to a channel. A channel that does not exist is made.
    pub fn get_channel(&mut self, channel: &str) -> (r: NameSet)
        ensures
            r@ == old(self)@.room(channel@).sockets,
            final(self)@ == old(self)@.touched(channel@),
    {
        match self.channels.get(channel) {
            Some(data) => {
                let r = data.sockets.copy();
                assert(self@.channels =~= old(self)@.touched(channel@).channels);
                r
            },
            None => {
                self.channels.insert(channel.to_string(), ChannelData::new());
                NameSet::new()
            },
        }
    }

    /// Removes a channel.
    pub fn remove_channel(&mut self, channel: &str)
        ensures
            final(self)@ == (NamespaceView {
                channels: old(self)@.channels.remove(channel@),
                ..old(self)@
            }),
    {
        self.channels.remove(channel);
    }

    /// Whether a connection is subscribed to a channel. A channel that does not exist is made.
    pub fn is_in_channel(&mut self, channel: &str, socket_id: &SocketId) -> (r: bool)
        ensures
            r == old(self)@.room(channel@).sockets.contains(socket_id@),
            final(self)@ == old(self)@.touched(channel@),
    {
        let members = self.get_channel(channel);
        members.contains(socket_id.0.as_str())
    }

    /// What a connection is known as on a presence channel. The connection exists and has joined a
    /// presence channel.
    pub fn get_presence_member(&self, channel: &str, socket_id: &SocketId) -> (r: Option<
        PresenceMemberInfo,
    >)
        requires
            self@.has_presence(socket_id@),
        ensures
            opt_view(r) == self@.sockets[socket_id@].state.member_on(channel@),
    {
        match self.sockets.get(socket_id.0.as_str()) {
            Some(conn) => match &conn.state.presence {
                Some(map) => match map.get(channel) {
                    Some(info) => Some(info.duplicate()),
                    None => None,
                },
                None => None,
            },
            None => None,
        }
    }

    /// Whether a connection exists, and a user that signed in over it has an id, a string.
    pub fn is_signed_in_properly(&self, socket_id: &SocketId) -> (r: bool)
        ensures
            r == self@.signed_in_properly(socket_id@),
    {
        match self.sockets.get(socket_id.0.as_str()) {
            Some(conn) => match &conn.state.user {
                Some(user) => user.get_str("id").is_some(),
                None => true,
            },
            None => false,
        }
    }

    /// Notes the user that signed in over a connection, if one did. A user has an id, a string.
    pub fn add_user(&mut self, socket_id: &SocketId)
        requires
            old(self)@.signed_in_properly(socket_id@),
        ensures
            final(self)@ == match old(self)@.signed_in(socket_id@) {
                Some(user_id) => old(self)@.with_user(user_id, socket_id@),
                None => old(self)@,
            },
    {
        let user_id = match self.sockets.get(socket_id.0.as_str()) {
            Some(conn) => match &conn.state.user {
                Some(user) => user.get_str("id"),
                None => None,
            },
            None => None,
        };
        match user_id {
            Some(user_id) => {
                if !self.users.contains_key(user_id.as_str()) {
                    self.users.insert(user_id.clone(), NameSet::new());
                }
                match self.users.get_mut(user_id.as_str()) {
                    Some(ids) => {
                        ids.insert(socket_id.0.clone());
                    },
                    None => {},
                }
                assert(self@.users =~= old(self)@.with_user(user_id@, socket_id@).users);
            },
            None => {},
        }
    }

    /// Strikes out the connection of the user that signed in over it, if one did.
    pub fn remove_user(&mut self, socket_id: &SocketId)
        requires
            old(self)@.signed_in_properly(socket_id@),
        ensures
            final(self)@ == match old(self)@.signed_in(socket_id@) {
                Some(user_id) => old(self)@.without_user(user_id, socket_id@),
                None => old(self)@,
            },
    {
        let user_id = match self.sockets.get(socket_id.0.as_str()) {
            Some(conn) => match &conn.state.user {
                Some(user) => user.get_str("id"),
                None => None,
            },
            None => None,
        };
        match user_id {
            Some(user_id) => {
                let mut vacant = false;
                match self.users.get_mut(user_id.as_str()) {
                    Some(ids) => {
                        ids.remove(socket_id.0.as_str());
                        vacant = ids.is_empty();
                    },
                    None => {},
                }
                if vacant {
                    self.users.remove(user_id.as_str());
                    assert(self@.users =~= old(self)@.users.remove(user_id@));
                }
            },
            None => {},
        }
    }

    /// Takes every connection of a user out. Gives the connections back with what they have still
    /// to write.
    pub fn terminate_user_connections(&mut self, user_id: &str) -> (r: Vec<WebSocket>)
        requires
            old(self)@.user_is_connected(user_id@),
        ensures
            final(self)@ == old(self)@.without_user_connections(user_id@),
            closed_off(old(self)@, old(self)@.connections_of(user_id@), r@),
    {
        let ids = self.get_user_sockets(user_id).items();
        let ghost start = old(self)@;
        let ghost all = start.connections_of(user_id@);
        let mut r: Vec<WebSocket> = Vec::new();
        let mut i: usize = 0;
        proof {
            assert(texts(ids@).take(0).to_set() =~= Set::<Seq<char>>::empty());
        }
        while i < ids.len()
            invariant
                i <= ids@.len(),
                texts(ids@).no_duplicates(),
                texts(ids@).to_set() == all,
                all.subset_of(start.sockets.dom()),
                i == 0 ==> self@ == start,
                i > 0 ==> self@ == start.without(texts(ids@).take(i as int).to_set()),
                r@.len() == i,
                forall|j: int|
                    0 <= j < i ==> (#[trigger] r@[j])@ == start.sockets[texts(ids@)[j]].handed(
                        disconnect_notice(),
                    ).handed(FrameView::Close(4009)),
            decreases ids@.len() - i,
        {
            let ghost id = ids@[i as int]@;
            let ghost seen = texts(ids@).take(i as int);
            proof {
                assert(texts(ids@)[i as int] == id);
                assert(texts(ids@).to_set().contains(id));
                assert(texts(ids@).take(i + 1) =~= seen.push(id));
                assert forall|k: Seq<char>|
                    texts(ids@).take(i + 1).contains(k) <==> (seen.contains(k) || k == id) by {
                    lemma_push_contains(seen, id, k);
                }
                assert(!seen.contains(id)) by {
                    if seen.contains(id) {
                        let j = choose|j: int| 0 <= j < seen.len() && seen[j] == id;
                        assert(texts(ids@)[j] == id);
                    }
                }
                assert(texts(ids@).take(i + 1).to_set() =~= seen.to_set().union(set![id]));
                if i > 0 {
                    lemma_without_twice(start, seen.to_set(), set![id]);
                } else {
                    assert(seen.to_set() =~= Set::<Seq<char>>::empty());
                    assert(seen.to_set().union(set![id]) =~= set![id]);
                }
            }
            match self.cleanup_connection(&SocketId(ids[i].clone())) {
                Some(conn) => {
                    r.push(conn);
                },
                None => {
                    assert(false);
                },
            }
            i = i + 1;
        }
        proof {
            assert(texts(ids@).take(i as int) =~= texts(ids@));
            if i == 0 {
                assert(all =~= Set::<Seq<char>>::empty());
            } else {
                assert(all.contains(texts(ids@)[0]));
            }
            assert(named_order(texts(ids@), all));
        }
        r
    }
}

/// `conns` are the connections `ids`, in some order, each told that it was disconnected and closed.
pub open spec fn closed_off(
    ns: NamespaceView,
    ids: Set<Seq<char>>,
    conns: Seq<WebSocket>,
) -> bool {
    exists|order: Seq<Seq<char>>| #[trigger]
        named_order(order, ids) && order.len() == conns.len() && forall|j: int|
            0 <= j < conns.len() ==> (#[trigger] conns[j])@ == ns.sockets[order[j]].handed(
                disconnect_notice(),
            ).handed(FrameView::Close(4009))
}

impl NamespaceView {
    /// The id of the user that signed in over a connection.
    pub open spec fn signed_in(self, id: Seq<char>) -> Option<Seq<char>> {
        if self.sockets.contains_key(id) {
            match self.sockets[id].state.user {
                Some(user) => user_id_of(user),
                None => None,
            }
        } else {
            None
        }
    }

    /// The connection exists, and a user that signed in over it has an id, a string.
    pub open spec fn signed_in_properly(self, id: Seq<char>) -> bool {
        &&& self.sockets.contains_key(id)
        &&& match self.sockets[id].state.user {
            Some(user) => user_id_of(user) is Some,
            None => true,
        }
    }
}

/// To take connections out one after the other is to take them all out.
pub proof fn lemma_without_twice(ns: NamespaceView, a: Set<Seq<char>>, b: Set<Seq<char>>)
    ensures
        ns.without(a).without(b) == ns.without(a.union(b)),
{
    let twice = ns.without(a).without(b);
    let once = ns.without(a.union(b));
    assert forall|s: Set<Seq<char>>| #[trigger] s.difference(a).difference(b) == s.difference(
        a.union(b),
    ) by {
        assert(s.difference(a).difference(b) =~= s.difference(a.union(b)));
    }
    assert(twice.sockets =~= once.sockets);
    assert forall|c: Seq<char>| twice.channels.contains_key(c) <==> once.channels.contains_key(
        c,
    ) by {
        if ns.channels.contains_key(c) {
            let s = ns.channels[c].sockets;
            assert(s.difference(a).difference(b) == s.difference(a.union(b)));
            if s.difference(a) =~= Set::<Seq<char>>::empty() {
                assert(s.difference(a.union(b)) =~= Set::<Seq<char>>::empty());
            }
        }
    }
    assert(twice.channels =~= once.channels);
    assert forall|u: Seq<char>| twice.users.contains_key(u) <==> once.users.contains_key(u) by {
        if ns.users.contains_key(u) {
            let s = ns.users[u];
            assert(s.difference(a).difference(b) == s.difference(a.union(b)));
            if s.difference(a) =~= Set::<Seq<char>>::empty() {
                assert(s.difference(a.union(b)) =~= Set::<Seq<char>>::empty());
            }
        }
    }
    assert(twice.users =~= once.users);
}

/// The id of an optional connection.
pub open spec fn opt_id(o: Option<&SocketId>) -> Option<Seq<char>> {
    match o {
        Some(id) => Some(id@),
        None => None,
    }
}

/// A user that signed in over a connection with a text under `id` is noted with the connection, beside
/// those that the user has already; struck out again, the connection is not one of the user's, and a
/// user without any is not noted. No other user is concerned.
pub proof fn user_is_noted_with_the_connection(
    ns: NamespaceView,
    id: Seq<char>,
    fields: Map<Seq<char>, JsonView>,
    user_id: Seq<char>,
    other: Seq<char>,
    x: Seq<char>,
)
    requires
        ns.sockets.contains_key(id),
        ns.sockets[id].state.user == Some(JsonView::Object(fields)),
        fields.contains_key("id"@),
        fields["id"@] == JsonView::Str(user_id),
    ensures
        ns.signed_in(id) == Some(user_id),
        ns.with_user(user_id, id).users.contains_key(user_id),
        ns.with_user(user_id, id).users[user_id].contains(x) <==> (x == id || (
        ns.users.contains_key(user_id) && ns.users[user_id].contains(x))),
        other != user_id ==> (ns.with_user(user_id, id).users.contains_key(other)
            == ns.users.contains_key(other) && ns.with_user(user_id, id).users[other]
            == ns.users[other]),
        ns.without_user(user_id, id).users.contains_key(user_id) ==> ns.without_user(
            user_id,
            id,
        ).users[user_id] == ns.users[user_id].remove(id) && ns.users[user_id].remove(id) != Set::<
            Seq<char>,
        >::empty(),
        ns.users.contains_key(user_id) && ns.users[user_id].remove(id) != Set::<
            Seq<char>,
        >::empty() ==> ns.without_user(user_id, id).users.contains_key(user_id),
        other != user_id ==> (ns.without_user(user_id, id).users.contains_key(other)
            == ns.users.contains_key(other) && (ns.users.contains_key(other) ==> ns.without_user(
            user_id,
            id,
        ).users[other] == ns.users[other])),
        ns.with_user(user_id, id).sockets == ns.sockets,
        ns.without_user(user_id, id).sockets == ns.sockets,
        ns.with_user(user_id, id).channels == ns.channels,
        ns.without_user(user_id, id).channels == ns.channels,
{
}

/// The connections of a user that are ended are given back, each once, with what each had still to
/// write, that it was disconnected, and the close with its code.
pub proof fn ended_connections_are_told_so(
    ns: NamespaceView,
    ids: Set<Seq<char>>,
    conns: Seq<WebSocket>,
    id: Seq<char>,
)
    requires
        closed_off(ns, ids, conns),
        ids.contains(id),
        ns.sockets[id].open,
    ensures
        exists|j: int|
            0 <= j < conns.len() && (#[trigger] conns[j])@.outbox == ns.sockets[id].outbox + seq![
                FrameView::Text(
                    OutgoingView::Error {
                        code: 4009,
                        message: "You got disconnected by the application"@,
                        channel: None,
                    },
                ),
                FrameView::Close(4009),
            ],
        conns.len() == ids.len(),
{
    let order = choose|order: Seq<Seq<char>>| #[trigger]
        named_order(order, ids) && order.len() == conns.len() && forall|j: int|
            0 <= j < conns.len() ==> (#[trigger] conns[j])@ == ns.sockets[order[j]].handed(
                disconnect_notice(),
            ).handed(FrameView::Close(4009));
    order.unique_seq_to_set();
    assert(order.to_set().contains(id));
    let j = choose|j: int| 0 <= j < order.len() && order[j] == id;
    assert(conns[j]@.outbox =~= ns.sockets[id].outbox + seq![
        FrameView::Text(
            OutgoingView::Error {
                code: 4009,
                message: "You got disconnected by the application"@,
                channel: None,
            },
        ),
        FrameView::Close(4009),
    ]);
}

/// A connection that is handed a message gets it behind what it has, where it takes messages, and
/// else gets nothing, which is told; to one that does not exist nothing happens. The other connections
/// get nothing.
pub proof fn message_goes_to_one_connection(
    ns: NamespaceView,
    id: Seq<char>,
    message: OutgoingView,
    other: Seq<char>,
)
    ensures
        ({
            let after = ns.handed(set![id], FrameView::Text(message));
            &&& after.sockets.dom() == ns.sockets.dom()
            &&& after.channels == ns.channels
            &&& after.users == ns.users
            &&& ns.sockets.contains_key(id) ==> {
                &&& after.sockets[id].outbox == if ns.sockets[id].open {
                    ns.sockets[id].outbox.push(FrameView::Text(message))
                } else {
                    ns.sockets[id].outbox
                }
                &&& after.sockets[id].state == ns.sockets[id].state
                &&& after.sockets[id].open == ns.sockets[id].open
            }
            &&& other != id && ns.sockets.contains_key(other) ==> after.sockets[other]
                == ns.sockets[other]
        }),
        ns.send_outcome(id) == if ns.sockets.contains_key(id) && !ns.sockets[id].open {
            Err::<(), ErrorView>(
                ErrorView::ConnectionError("Failed to send message: channel closed"@),
            )
        } else {
            Ok(())
        },
{
    assert(ns.handed(set![id], FrameView::Text(message)).sockets.dom() =~= ns.sockets.dom());
}

/// To join a channel adds one connection to it, and to leave it takes one off; no other channel and
/// no connection changes.
pub proof fn joining_adds_and_leaving_takes_off(
    ns: NamespaceView,
    channel: Seq<char>,
    id: Seq<char>,
    c: Seq<char>,
    other: Seq<char>,
)
    ensures
        ns.joined(channel, id).room(c).sockets.contains(other) <==> ns.room(c).sockets.contains(
            other,
        ) || (c == channel && other == id),
        ns.left(channel, id).room(c).sockets.contains(other) <==> ns.room(c).sockets.contains(
            other,
        ) && !(c == channel && other == id),
        ns.joined(channel, id).room(c).presence_members == ns.room(c).presence_members,
        ns.left(channel, id).channels.contains_key(c) ==> ns.left(channel, id).room(
            c,
        ).presence_members == ns.room(c).presence_members,
        ns.joined(channel, id).sockets == ns.sockets,
        ns.left(channel, id).sockets == ns.sockets,
        ns.joined(channel, id).users == ns.users,
        ns.left(channel, id).users == ns.users,
{
    if ns.channels.contains_key(channel) {
        let rest = ns.channels[channel].sockets.remove(id);
        if rest == Set::<Seq<char>>::empty() {
            assert(!rest.contains(other));
        }
    }
}

/// A user is connected where each connection that is noted for the user exists; a user without any is.
pub proof fn user_is_connected_by_connections_that_exist(ns: NamespaceView, user_id: Seq<char>)
    ensures
        !ns.users.contains_key(user_id) ==> ns.user_is_connected(user_id),
        ns.users.contains_key(user_id) ==> (ns.user_is_connected(user_id) <==> forall|id: Seq<char>|
            ns.users[user_id].contains(id) ==> #[trigger] ns.sockets.contains_key(id)),
        !ns.users.contains_key(user_id) ==> ns.without_user_connections(user_id) == ns,
{
    if ns.users.contains_key(user_id) && (forall|id: Seq<char>|
        ns.users[user_id].contains(id) ==> #[trigger] ns.sockets.contains_key(id)) {
        assert forall|id: Seq<char>| ns.users[user_id].contains(id) implies #[trigger] ns.sockets.dom().contains(
            id,
        ) by {
            assert(ns.sockets.contains_key(id));
        }
    }
    if ns.user_is_connected(user_id) && ns.users.contains_key(user_id) {
        assert forall|id: Seq<char>| ns.users[user_id].contains(id) implies #[trigger] ns.sockets.contains_key(
            id,
        ) by {
            assert(ns.sockets.dom().contains(id));
        }
    }
}

} // verus!
