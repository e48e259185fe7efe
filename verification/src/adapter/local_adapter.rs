//! The namespaces of one server.

use vstd::prelude::*;

use crate::app::config::App;
use crate::channel::types::PresenceMemberInfo;
use crate::error::{outcome, Result};
use crate::model::opt_view;
use crate::namespace::{closed_off, opt_id, Namespace, NamespaceView};
use crate::protocol::{FrameView, Outgoing};
use crate::table::{named_order, Dict, NameSet};
use crate::text::texts;
use crate::websocket::{writer_gone, SocketId, WebSocket};

verus! {

/// The namespace of an application; one that does not exist has no connections.
pub open spec fn space(all: Map<Seq<char>, NamespaceView>, app_id: Seq<char>) -> NamespaceView {
    if all.contains_key(app_id) {
        all[app_id]
    } else {
        NamespaceView::empty(app_id)
    }
}

/// The namespaces of one server, by the ids of the applications. A namespace is made when it is
/// first asked for.
pub struct LocalAdapter {
    namespaces: Dict<Namespace>,
}

impl View for LocalAdapter {
    type V = Map<Seq<char>, NamespaceView>;

    closed spec fn view(&self) -> Map<Seq<char>, NamespaceView> {
        self.namespaces@
    }
}

impl LocalAdapter {
    /// A server without namespaces.
    pub fn new() -> (r: Self)
        ensures
            r@ == Map::<Seq<char>, NamespaceView>::empty(),
    {
        LocalAdapter { namespaces: Dict::new() }
    }

    /// The namespace of an application, to be changed in place. One that does not exist is made.
    pub fn get_namespace(&mut self, app_id: &str) -> (r: &mut Namespace)
        ensures
            r@ == space(old(self)@, app_id@),
            final(self)@ == old(self)@.insert(app_id@, final(r)@),
    {
        if !self.namespaces.contains_key(app_id) {
            self.namespaces.insert(app_id.to_string(), Namespace::new(app_id.to_string()));
        }
        self.namespaces.get_mut(app_id).unwrap()
    }

    /// The namespace of an application, where it exists.
    pub fn find_namespace(&self, app_id: &str) -> (r: Option<&Namespace>)
        ensures
            match r {
                Some(ns) => self@.contains_key(app_id@) && ns@ == self@[app_id@],
                None => !self@.contains_key(app_id@),
            },
    {
        self.namespaces.get(app_id)
    }

    /// Takes a connection in; `app` is the outcome of the search for its application.
    pub fn add_socket(&mut self, socket_id: SocketId, app_id: &str, app: Result<Option<App>>) -> (r:
        bool)
        ensures
            match app {
                Ok(Some(found)) => r && final(self)@ == old(self)@.insert(
                    app_id@,
                    space(old(self)@, app_id@).with_socket(socket_id@, Some(found@)),
                ),
                Ok(None) => !r && final(self)@ == old(self)@.insert(
                    app_id@,
                    space(old(self)@, app_id@),
                ),
                Err(_) => r && final(self)@ == old(self)@.insert(
                    app_id@,
                    space(old(self)@, app_id@).with_socket(socket_id@, None),
                ),
            },
    {
        self.get_namespace(app_id).add_socket(socket_id, app)
    }

    /// A connection, to be changed in place.
    pub fn get_connection(&mut self, socket_id: &SocketId, app_id: &str) -> (r: Option<
        &mut WebSocket,
    >)
        ensures
            match r {
                Some(conn) => {
                    let ns = space(old(self)@, app_id@);
                    &&& ns.sockets.contains_key(socket_id@)
                    &&& conn@ == ns.sockets[socket_id@]
                    &&& final(self)@ == old(self)@.insert(
                        app_id@,
                        ns.with_conn(socket_id@, final(conn)@),
                    )
                },
                None => {
                    let ns = space(old(self)@, app_id@);
                    !ns.sockets.contains_key(socket_id@) && final(self)@ == old(self)@.insert(
                        app_id@,
                        ns,
                    )
                },
            },
    {
        self.get_namespace(app_id).get_connection_mut(socket_id)
    }

    /// Forgets a connection, and gives it back with what it has still to write.
    pub fn remove_connection(&mut self, socket_id: &SocketId, app_id: &str) -> (r: Option<WebSocket>)
        ensures
            final(self)@ == old(self)@.insert(
                app_id@,
                NamespaceView {
                    sockets: space(old(self)@, app_id@).sockets.remove(socket_id@),
                    ..space(old(self)@, app_id@)
                },
            ),
            match r {
                Some(conn) => space(old(self)@, app_id@).sockets.contains_key(socket_id@) && conn@
                    == space(old(self)@, app_id@).sockets[socket_id@],
                None => !space(old(self)@, app_id@).sockets.contains_key(socket_id@),
            },
    {
        self.get_namespace(app_id).remove_connection(socket_id)
    }

    /// Hands a connection a message.
    pub fn send_message(&mut self, app_id: &str, socket_id: &SocketId, message: Outgoing) -> (r:
        Result<()>)
        ensures
            final(self)@ == old(self)@.insert(
                app_id@,
                space(old(self)@, app_id@).handed(set![socket_id@], FrameView::Text(message@)),
            ),
            outcome(r) == space(old(self)@, app_id@).send_outcome(socket_id@),
    {
        self.get_namespace(app_id).send_message(socket_id, message)
    }

    /// Hands a message to every connection on a channel, but to `except`.
    pub fn send(
        &mut self,
        channel: &str,
        message: &Outgoing,
        except: Option<&SocketId>,
        app_id: &str,
    ) -> (r: Result<()>)
        ensures
            outcome(r) == if space(old(self)@, app_id@).all_take(channel@, opt_id(except)) {
                Ok(())
            } else {
                Err(writer_gone())
            },
            r is Ok ==> final(self)@ == old(self)@.insert(
                app_id@,
                space(old(self)@, app_id@).broadcast(channel@, message@, opt_id(except)),
            ),
            r is Err ==> exists|after: NamespaceView| #[trigger]
                space(old(self)@, app_id@).broadcast_in_part(
                    channel@,
                    message@,
                    opt_id(except),
                    after,
                ) && final(self)@ == old(self)@.insert(app_id@, after),
    {
        let ns = self.get_namespace(app_id);
        let r = ns.broadcast(channel, message, except);
        let ghost after = ns@;
        assert(self@ == old(self)@.insert(app_id@, after));
        r
    }

    /// The users on a presence channel.
    pub fn get_channel_members(&mut self, app_id: &str, channel: &str) -> (r: Dict<
        PresenceMemberInfo,
    >)
        ensures
            space(old(self)@, app_id@).are_members(channel@, r@),
            final(self)@ == old(self)@.insert(
                app_id@,
                space(old(self)@, app_id@).touched(channel@),
            ),
    {
        self.get_namespace(app_id).get_channel_members(channel)
    }

    /// The connections on a channel that exist.
    pub fn get_channel_sockets(&mut self, app_id: &str, channel: &str) -> (r: NameSet)
        ensures
            r@ == space(old(self)@, app_id@).targets(channel@, None),
            final(self)@ == old(self)@.insert(app_id@, space(old(self)@, app_id@)),
    {
        self.get_namespace(app_id).get_channel_sockets(channel)
    }

    /// The connections that are subscribed to a channel. A channel that does not exist is made.
    pub fn get_channel(&mut self, app_id: &str, channel: &str) -> (r: NameSet)
        ensures
            r@ == space(old(self)@, app_id@).room(channel@).sockets,
            final(self)@ == old(self)@.insert(
                app_id@,
                space(old(self)@, app_id@).touched(channel@),
            ),
    {
        self.get_namespace(app_id).get_channel(channel)
    }

    /// Removes a channel.
    pub fn remove_channel(&mut self, app_id: &str, channel: &str)
        ensures
            final(self)@ == old(self)@.insert(
                app_id@,
                NamespaceView {
                    channels: space(old(self)@, app_id@).channels.remove(channel@),
                    ..space(old(self)@, app_id@)
                },
            ),
    {
        self.get_namespace(app_id).remove_channel(channel)
    }

    /// Whether a connection is subscribed to a channel. A channel that does not exist is made.
    pub fn is_in_channel(&mut self, app_id: &str, channel: &str, socket_id: &SocketId) -> (r: bool)
        ensures
            r == space(old(self)@, app_id@).room(channel@).sockets.contains(socket_id@),
            final(self)@ == old(self)@.insert(
                app_id@,
                space(old(self)@, app_id@).touched(channel@),
            ),
    {
        self.get_namespace(app_id).is_in_channel(channel, socket_id)
    }

    /// Whether every connection of a user exists.
    pub fn user_sockets_exist(&self, app_id: &str, user_id: &str) -> (r: bool)
        ensures
            r == space(self@, app_id@).user_is_connected(user_id@),
    {
        match self.find_namespace(app_id) {
            Some(ns) => ns.user_sockets_exist(user_id),
            None => true,
        }
    }

    /// The connections of a user, all of which exist.
    pub fn get_user_sockets(&mut self, user_id: &str, app_id: &str) -> (r: NameSet)
        requires
            space(old(self)@, app_id@).user_is_connected(user_id@),
        ensures
            r@ == space(old(self)@, app_id@).connections_of(user_id@),
            final(self)@ == old(self)@.insert(app_id@, space(old(self)@, app_id@)),
    {
        self.get_namespace(app_id).get_user_sockets(user_id)
    }

    /// Takes a connection out of everything, and gives it back with what it has still to write.
    pub fn cleanup_connection(&mut self, app_id: &str, socket_id: &SocketId) -> (r: Option<
        WebSocket,
    >)
        ensures
            final(self)@ == old(self)@.insert(
                app_id@,
                space(old(self)@, app_id@).without(set![socket_id@]),
            ),
            opt_view(r) == space(old(self)@, app_id@).taken_out(socket_id@),
    {
        self.get_namespace(app_id).cleanup_connection(socket_id)
    }

    /// Takes every connection of a user out, and gives them back with what they have still to
    /// write.
    pub fn terminate_user_connections(&mut self, app_id: &str, user_id: &str) -> (r: Vec<WebSocket>)
        requires
            space(old(self)@, app_id@).user_is_connected(user_id@),
        ensures
            final(self)@ == old(self)@.insert(
                app_id@,
                space(old(self)@, app_id@).without_user_connections(user_id@),
            ),
            closed_off(
                space(old(self)@, app_id@),
                space(old(self)@, app_id@).connections_of(user_id@),
                r@,
            ),
    {
        self.get_namespace(app_id).terminate_user_connections(user_id)
    }

    /// Adds a connection to a channel, and says whether it was not on it before.
    pub fn add_to_channel(&mut self, app_id: &str, channel: &str, socket_id: &SocketId) -> (r: bool)
        ensures
            final(self)@ == old(self)@.insert(
                app_id@,
                space(old(self)@, app_id@).joined(channel@, socket_id@),
            ),
            r == !space(old(self)@, app_id@).room(channel@).sockets.contains(socket_id@),
    {
        self.get_namespace(app_id).add_channel_to_socket(channel, socket_id)
    }

    /// How many connections are subscribed to a channel. A channel that does not exist is made.
    pub fn get_channel_socket_count(&mut self, app_id: &str, channel: &str) -> (r: usize)
        ensures
            r == space(old(self)@, app_id@).room(channel@).sockets.len(),
            final(self)@ == old(self)@.insert(
                app_id@,
                space(old(self)@, app_id@).touched(channel@),
            ),
    {
        self.get_namespace(app_id).get_channel(channel).len()
    }

    /// Takes a connection off a channel.
    pub fn remove_from_channel(&mut self, app_id: &str, channel: &str, socket_id: &SocketId) -> (r:
        bool)
        ensures
            final(self)@ == old(self)@.insert(
                app_id@,
                space(old(self)@, app_id@).left(channel@, socket_id@),
            ),
            r,
    {
        self.get_namespace(app_id).remove_channel_from_socket(channel, socket_id)
    }

    /// What a connection is known as on a presence channel. The connection exists and has joined a
    /// presence channel.
    pub fn get_presence_member(&mut self, app_id: &str, channel: &str, socket_id: &SocketId) -> (r:
        Option<PresenceMemberInfo>)
        requires
            space(old(self)@, app_id@).has_presence(socket_id@),
        ensures
            opt_view(r) == space(old(self)@, app_id@).sockets[socket_id@].state.member_on(channel@),
            final(self)@ == old(self)@.insert(app_id@, space(old(self)@, app_id@)),
    {
        self.get_namespace(app_id).get_presence_member(channel, socket_id)
    }

    /// Whether a connection exists, and a user that signed in over it has an id, a string.
    pub fn is_signed_in_properly(&self, app_id: &str, socket_id: &SocketId) -> (r: bool)
        ensures
            r == space(self@, app_id@).signed_in_properly(socket_id@),
    {
        match self.find_namespace(app_id) {
            Some(ns) => ns.is_signed_in_properly(socket_id),
            None => false,
        }
    }

    /// Notes the user that signed in over a connection, if one did.
    pub fn add_user(&mut self, app_id: &str, socket_id: &SocketId)
        requires
            space(old(self)@, app_id@).signed_in_properly(socket_id@),
        ensures
            final(self)@ == old(self)@.insert(
                app_id@,
                match space(old(self)@, app_id@).signed_in(socket_id@) {
                    Some(user_id) => space(old(self)@, app_id@).with_user(user_id, socket_id@),
                    None => space(old(self)@, app_id@),
                },
            ),
    {
        self.get_namespace(app_id).add_user(socket_id)
    }

    /// Strikes out the connection of the user that signed in over it, if one did.
    pub fn remove_user(&mut self, app_id: &str, socket_id: &SocketId)
        requires
            space(old(self)@, app_id@).signed_in_properly(socket_id@),
        ensures
            final(self)@ == old(self)@.insert(
                app_id@,
                match space(old(self)@, app_id@).signed_in(socket_id@) {
                    Some(user_id) => space(old(self)@, app_id@).without_user(user_id, socket_id@),
                    None => space(old(self)@, app_id@),
                },
            ),
    {
        self.get_namespace(app_id).remove_user(socket_id)
    }

    /// The connections on a channel of any application, each once.
    pub fn get_all_channel_sockets(&self, channel: &str) -> (r: Vec<SocketId>)
        ensures
            named_order(crate::model::views(r@), on_channel_anywhere(self@, channel@)),
    {
        let n: usize = self.namespaces.len();
        let ghost order = self.namespaces.order();
        let mut found = NameSet::new();
        let mut i: usize = 0;
        while i < n
            invariant
                i <= n,
                n == order.len(),
                order == self.namespaces.order(),
                forall|id: Seq<char>| #[trigger]
                    found@.contains(id) <==> exists|j: int|
                        0 <= j < i && self@[#[trigger] order[j]].targets(channel@, None).contains(
                            id,
                        ),
            decreases n - i,
        {
            let here = self.namespaces.value_at(i).get_channel_sockets(channel);
            let ids = here.items();
            let ghost before = found@;
            let mut k: usize = 0;
            while k < ids.len()
                invariant
                    k <= ids@.len(),
                    texts(ids@).to_set() == here@,
                    forall|id: Seq<char>| #[trigger]
                        found@.contains(id) <==> before.contains(id) || texts(ids@).take(
                            k as int,
                        ).contains(id),
                decreases ids@.len() - k,
            {
                proof {
                    let seen = texts(ids@).take(k as int);
                    let id = texts(ids@)[k as int];
                    assert(texts(ids@).take(k + 1) =~= seen.push(id));
                    assert forall|x: Seq<char>| seen.push(id).contains(x) <==> (seen.contains(x) || x
                        == id) by {
                        crate::table::lemma_push_contains(seen, id, x);
                    }
                }
                found.insert(ids[k].clone());
                k = k + 1;
            }
            proof {
                assert(texts(ids@).take(k as int) =~= texts(ids@));
                assert forall|id: Seq<char>| #[trigger] found@.contains(id) <==> exists|j: int|
                    0 <= j < i + 1 && self@[#[trigger] order[j]].targets(channel@, None).contains(
                        id,
                    ) by {
                    assert(texts(ids@).to_set().contains(id) <==> texts(ids@).contains(id));
                    if texts(ids@).contains(id) {
                        assert(self@[order[i as int]].targets(channel@, None).contains(id));
                    }
                    if exists|j: int|
                        0 <= j < i + 1 && self@[#[trigger] order[j]].targets(
                            channel@,
                            None,
                        ).contains(id) {
                        let j = choose|j: int|
                            0 <= j < i + 1 && self@[#[trigger] order[j]].targets(
                                channel@,
                                None,
                            ).contains(id);
                        if j == i {
                            assert(texts(ids@).to_set().contains(id));
                        } else {
                            assert(before.contains(id));
                        }
                    }
                }
            }
            i = i + 1;
        }
        proof {
            assert(found@ =~= on_channel_anywhere(self@, channel@)) by {
                assert forall|id: Seq<char>| found@.contains(id) <==> on_channel_anywhere(
                    self@,
                    channel@,
                ).contains(id) by {
                    if found@.contains(id) {
                        let j = choose|j: int|
                            0 <= j < n && self@[#[trigger] order[j]].targets(
                                channel@,
                                None,
                            ).contains(id);
                        assert(order.to_set().contains(order[j]));
                        assert(self@.contains_key(order[j]));
                    }
                    if on_channel_anywhere(self@, channel@).contains(id) {
                        let app = choose|app: Seq<char>| #[trigger]
                            self@.contains_key(app) && self@[app].targets(channel@, None).contains(
                                id,
                            );
                        assert(order.to_set().contains(app));
                        let j = choose|j: int| 0 <= j < order.len() && order[j] == app;
                        assert(self@[order[j]].targets(channel@, None).contains(id));
                    }
                }
            }
        }
        let ids = found.items();
        let mut r: Vec<SocketId> = Vec::new();
        let mut k: usize = 0;
        while k < ids.len()
            invariant
                k <= ids@.len(),
                crate::model::views(r@) == texts(ids@).take(k as int),
            decreases ids@.len() - k,
        {
            let ghost before = r@;
            r.push(SocketId(ids[k].clone()));
            proof {
                assert(crate::model::views(r@) =~= crate::model::views(before).push(
                    texts(ids@)[k as int],
                ));
                assert(texts(ids@).take(k + 1) =~= texts(ids@).take(k as int).push(
                    texts(ids@)[k as int],
                ));
            }
            k = k + 1;
        }
        assert(texts(ids@).take(k as int) =~= texts(ids@));
        r
    }
}

/// The connections on a channel of this name in any application.
pub open spec fn on_channel_anywhere(
    all: Map<Seq<char>, NamespaceView>,
    channel: Seq<char>,
) -> Set<Seq<char>> {
    Set::new(
        |id: Seq<char>|
            exists|app: Seq<char>| #[trigger]
                all.contains_key(app) && all[app].targets(channel, None).contains(id),
    )
}

/// The connections on a channel of this name are those of each application, and no others.
pub proof fn connections_anywhere_are_those_of_each_application(
    all: Map<Seq<char>, NamespaceView>,
    channel: Seq<char>,
    app: Seq<char>,
    id: Seq<char>,
)
    requires
        all.contains_key(app),
    ensures
        all[app].channels.contains_key(channel) && all[app].channels[channel].sockets.contains(id)
            && all[app].sockets.contains_key(id) ==> on_channel_anywhere(all, channel).contains(id),
        on_channel_anywhere(all, channel).contains(id) ==> exists|a: Seq<char>| #[trigger]
            all.contains_key(a) && all[a].channels.contains_key(channel)
                && all[a].channels[channel].sockets.contains(id) && all[a].sockets.contains_key(id),
        space(all, app) == all[app],
{
    if all[app].room(channel).sockets.contains(id) && all[app].sockets.contains_key(id) {
        assert(all[app].targets(channel, None).contains(id));
    }
}

/// An application without a namespace has no connections, channels or users.
pub proof fn application_without_a_namespace_is_empty(
    all: Map<Seq<char>, NamespaceView>,
    app: Seq<char>,
)
    requires
        !all.contains_key(app),
    ensures
        space(all, app).app_id == app,
        space(all, app).sockets.dom() == Set::<Seq<char>>::empty(),
        space(all, app).channels.dom() == Set::<Seq<char>>::empty(),
        space(all, app).users.dom() == Set::<Seq<char>>::empty(),
{
}

} // verus!
