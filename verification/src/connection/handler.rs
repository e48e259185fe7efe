//! What the server does with the messages of its clients.
//!
//! Some messages have to be published to the other servers of the cluster before the server can
//! go on. Such a step gives back what is to be published and what is left to do, and a second step
//! takes the outcome.

use vstd::prelude::*;

use crate::adapter::local_adapter::space;
use crate::app::auth::{sign_in_verdict, AuthValidator};
use crate::app::config::AppView;
use crate::app::manager::AppManager;
use crate::app::memory_app_manager::{
    app_with_id, key_in_use, registered_with_key, MemoryAppManager,
};
use crate::channel::manager::{expected_signature, signable, ChannelManager, PresenceView};
use crate::channel::types::{
    channel_type, restricted, restricted_by_prefix, ChannelType, MemberView, PresenceMemberInfo,
};
use crate::connection::manager::ConnectionManager;
use crate::connection::redis_manager::{
    publication, Publication, PublicationView, RedisConnectionManager,
};
use crate::error::{outcome, Error, ErrorView, Result};
use crate::json::{json_parsed, Json, JsonView};
use crate::model::{copy_option, opt_view, Duplicate};
use crate::namespace::NamespaceView;
use crate::protocol::{
    extra_str, get_extra_str, DataView, FrameView, MessageData, MessageView, OptionalInfo,
    Outgoing, OutgoingView, PresenceSummary, PusherMessage, SummaryView,
};
use crate::table::{named_order, Dict};
use crate::text::{concat, copy_opt, join, opt_str, opt_text, same, starts_with, texts};
use crate::websocket::{writer_gone, ConnView, SocketId, StateView};

verus! {

/// A server: its applications and its connections.
pub struct ConnectionHandler {
    pub app_manager: MemoryAppManager,
    pub channel_manager: ChannelManager,
    pub connection_manager: RedisConnectionManager,
}

/// A server by its view.
#[verifier::ext_equal]
pub struct ServerView {
    pub apps: Map<Seq<char>, AppView>,
    pub spaces: Map<Seq<char>, NamespaceView>,
    pub node: Seq<char>,
    pub redis_channel: Seq<char>,
}

impl View for ConnectionHandler {
    type V = ServerView;

    open spec fn view(&self) -> ServerView {
        ServerView {
            apps: self.app_manager@,
            spaces: self.connection_manager.spaces(),
            node: self.connection_manager.node(),
            redis_channel: self.connection_manager.redis_channel_name(),
        }
    }
}

impl ServerView {
    /// The namespace of an application.
    pub open spec fn space(self, app_id: Seq<char>) -> NamespaceView {
        space(self.spaces, app_id)
    }

    /// The server with another state of a namespace.
    pub open spec fn with_space(self, app_id: Seq<char>, ns: NamespaceView) -> ServerView {
        ServerView { spaces: self.spaces.insert(app_id, ns), ..self }
    }

    /// The server after a connection was handed a message.
    pub open spec fn told(self, app_id: Seq<char>, id: Seq<char>, message: OutgoingView) -> ServerView {
        self.with_space(app_id, self.space(app_id).handed(set![id], FrameView::Text(message)))
    }

    /// What may be left of the server after a message to a channel was refused by a connection.
    pub open spec fn broadcast_failed(
        self,
        app_id: Seq<char>,
        channel: Seq<char>,
        message: OutgoingView,
        except: Option<Seq<char>>,
        after: ServerView,
    ) -> bool {
        exists|ns: NamespaceView| #[trigger]
            self.space(app_id).broadcast_in_part(channel, message, except, ns) && after
                == self.with_space(app_id, ns)
    }

    /// The server after a message to a channel reached all connections that it goes to.
    pub open spec fn after_broadcast(
        self,
        app_id: Seq<char>,
        channel: Seq<char>,
        message: OutgoingView,
        except: Option<Seq<char>>,
    ) -> ServerView {
        self.with_space(app_id, self.space(app_id).broadcast(channel, message, except))
    }
}

/// A message with an event and nothing else.
pub open spec fn bare_event(event: Seq<char>, data: Option<DataView>) -> OutgoingView {
    OutgoingView::Message(MessageView { channel: None, name: None, event: Some(event), data })
}

/// An event on a channel.
pub open spec fn channel_event(
    event: Option<Seq<char>>,
    channel: Seq<char>,
    data: JsonView,
) -> OutgoingView {
    OutgoingView::Message(
        MessageView {
            channel: Some(channel),
            name: None,
            event,
            data: Some(DataView::Json(data)),
        },
    )
}

/// The error that a failure to publish gives.
pub open spec fn publish_failure(text: Seq<char>) -> ErrorView {
    ErrorView::ConnectionError("Failed to publish: "@ + text)
}

/// The outcome of publishing a message, as an error of the server.
pub open spec fn publish_outcome(
    published: std::result::Result<(), String>,
) -> std::result::Result<(), ErrorView> {
    match published {
        Ok(_) => Ok(()),
        Err(text) => Err(publish_failure(text@)),
    }
}

/// The channel that the data of a subscription name.
pub open spec fn named_channel(data: Option<DataView>) -> Option<Seq<char>> {
    match data {
        Some(DataView::String(s)) => Some(s),
        Some(DataView::Structured { channel, .. }) => channel,
        Some(DataView::Json(v)) => v.get_str("channel"@),
        None => None,
    }
}

/// The signature that the data of a subscription give; empty where there is none.
pub open spec fn given_auth(data: Option<DataView>) -> Seq<char> {
    let given = match data {
        Some(DataView::String(s)) => Some(s),
        Some(DataView::Structured { extra, .. }) => extra_str(extra, "auth"@),
        Some(DataView::Json(v)) => v.get_str("auth"@),
        None => None,
    };
    match given {
        Some(s) => s,
        None => ""@,
    }
}

/// Whether the data of a subscription give the signature that it needs.
pub open spec fn authentic(app: AppView, id: Seq<char>, data: Option<DataView>) -> bool {
    given_auth(data) == expected_signature(app, id, data)
}

/// Why a subscription is refused before its signature is looked at.
pub open spec fn subscribe_refusal(
    apps: Map<Seq<char>, AppView>,
    app_id: Seq<char>,
    data: Option<DataView>,
) -> Option<ErrorView> {
    if app_with_id(apps, app_id) is None {
        Some(ErrorView::InvalidAppKey)
    } else if restricted(named_channel(data)->0) && given_auth(data) == ""@ {
        Some(ErrorView::AuthError("Authentication required"@))
    } else {
        None
    }
}

impl ServerView {
    /// Whether a subscription can be handled: the data name a channel, and where the signature is
    /// looked at, it can be computed. A connection does not join a presence channel that it is on.
    pub open spec fn can_subscribe(
        self,
        app_id: Seq<char>,
        id: Seq<char>,
        data: Option<DataView>,
    ) -> bool {
        &&& named_channel(data) is Some
        &&& subscribe_refusal(self.apps, app_id, data) is None ==> {
            let channel = named_channel(data)->0;
            let ns = self.space(app_id);
            &&& signable(data)
            &&& !(channel_type(channel) == ChannelType::Presence && authentic(
                self.apps[app_id],
                id,
                data,
            ) && ns.room(channel).sockets.contains(id) && ns.sockets.contains_key(id))
        }
    }
}

impl ConnView {
    /// The connection after it joined a channel, as `member` where that is a presence channel.
    pub open spec fn noted(self, channel: Seq<char>, member: Option<PresenceView>) -> ConnView {
        let subscribed_channels = self.state.subscribed_channels.insert(channel);
        ConnView {
            state: match member {
                Some(m) => StateView {
                    subscribed_channels,
                    user_id: Some(m.user_id),
                    presence: Some(
                        match self.state.presence {
                            Some(map) => map,
                            None => Map::empty(),
                        }.insert(channel, m.info()),
                    ),
                    ..self.state
                },
                None => StateView { subscribed_channels, ..self.state },
            },
            ..self
        }
    }

    /// The connection after it left a presence channel.
    pub open spec fn struck(self, channel: Seq<char>) -> ConnView {
        ConnView {
            state: StateView {
                subscribed_channels: self.state.subscribed_channels.remove(channel),
                presence: match self.state.presence {
                    Some(map) => Some(map.remove(channel)),
                    None => None,
                },
                ..self.state
            },
            ..self
        }
    }
}

impl NamespaceView {
    /// The namespace after a connection that exists noted that it joined a channel.
    pub open spec fn noted(
        self,
        id: Seq<char>,
        channel: Seq<char>,
        member: Option<PresenceView>,
    ) -> NamespaceView {
        if self.sockets.contains_key(id) {
            self.with_conn(id, self.sockets[id].noted(channel, member))
        } else {
            self
        }
    }

    /// Whether a summary is one of the members of a channel.
    pub open spec fn is_summary(self, channel: Seq<char>, summary: SummaryView) -> bool {
        exists|members: Map<Seq<char>, MemberView>| #[trigger]
            self.are_members(channel, members) && named_order(summary.ids, members.dom())
                && summary.hash == members.map_values(|m: MemberView| m.user_info) && summary.count
                == members.dom().len()
    }
}

/// What is left to do of a subscription to a presence channel: to tell the other servers, and then
/// the subscriber.
pub struct Announcement {
    pub publication: Publication,
    pub channel: String,
    pub members: PresenceSummary,
}

/// What the subscribers of a presence channel are told of a new member.
pub open spec fn member_added(channel: Seq<char>, member: PresenceView) -> OutgoingView {
    OutgoingView::MemberAdded {
        channel,
        user_id: member.user_id,
        user_info: Some(member.user_info),
    }
}

impl ServerView {
    /// Whether a subscription was handled: `r` is its result, and `after` the server after it.
    pub open spec fn subscribes(
        self,
        app_id: Seq<char>,
        id: Seq<char>,
        data: Option<DataView>,
        r: Result<Option<Announcement>>,
        after: ServerView,
    ) -> bool {
        let channel = named_channel(data)->0;
        let ns = self.space(app_id);
        match subscribe_refusal(self.apps, app_id, data) {
            Some(e) => r matches Err(given) && given@ == e && after == self,
            None => {
                let known = authentic(self.apps[app_id], id, data);
                let joined = ns.after_join(channel, id, data);
                match ns.join_outcome(channel, id, data, known) {
                    Err(_) => {
                        &&& r matches Err(given)
                        &&& given@ == ErrorView::ChannelError("Failed to subscribe"@)
                        &&& after == if restricted(channel) && !known {
                            self
                        } else {
                            self.with_space(app_id, joined)
                        }
                    },
                    Ok(answer) => self.with_space(
                        app_id,
                        joined.noted(id, channel, answer.member),
                    ).announces(app_id, id, channel, answer.member, r, after),
                }
            },
        }
    }

    /// Whether a subscription that succeeded was announced: on a presence channel the others are
    /// told of a new member, and the subscriber will be; on other channels the subscriber is told.
    pub open spec fn announces(
        self,
        app_id: Seq<char>,
        id: Seq<char>,
        channel: Seq<char>,
        member: Option<PresenceView>,
        r: Result<Option<Announcement>>,
        after: ServerView,
    ) -> bool {
        let ns = self.space(app_id);
        if channel_type(channel) != ChannelType::Presence {
            &&& r matches Ok(None)
            &&& after == self.told(
                app_id,
                id,
                OutgoingView::SubscriptionSucceeded { channel, presence: None },
            )
        } else {
            match member {
                None => r matches Ok(None) && after == self,
                Some(m) => if ns.all_take(channel, Some(id)) {
                    &&& r matches Ok(Some(todo))
                    &&& todo.publication@ == publication(
                        self.node,
                        app_id,
                        channel,
                        member_added(channel, m),
                        Some(id),
                    )
                    &&& todo.channel@ == channel
                    &&& ns.is_summary(channel, todo.members@)
                    &&& after == self.after_broadcast(
                        app_id,
                        channel,
                        member_added(channel, m),
                        Some(id),
                    )
                } else {
                    &&& r matches Err(given)
                    &&& given@ == writer_gone()
                    &&& self.broadcast_failed(
                        app_id,
                        channel,
                        member_added(channel, m),
                        Some(id),
                        after,
                    )
                },
            }
        }
    }
}

/// A channel that exists is not changed by being looked up.
proof fn lemma_touched_existing(ns: NamespaceView, channel: Seq<char>)
    requires
        ns.channels.contains_key(channel),
    ensures
        ns.touched(channel) == ns,
{
    assert(ns.touched(channel).channels =~= ns.channels);
}

impl ConnectionHandler {
    /// A server with these applications, and without connections.
    pub fn new(app_manager: MemoryAppManager, connection_manager: RedisConnectionManager) -> (r: Self)
        ensures
            r@.apps == app_manager@,
            r@.spaces == connection_manager.spaces(),
            r@.node == connection_manager.node(),
            r@.redis_channel == connection_manager.redis_channel_name(),
    {
        ConnectionHandler { app_manager, channel_manager: ChannelManager::new(), connection_manager }
    }

    /// Answers a ping.
    pub fn handle_ping(&mut self, app_id: &str, socket_id: &SocketId) -> (r: Result<()>)
        ensures
            final(self)@ == old(self)@.told(app_id@, socket_id@, bare_event("pusher:pong"@, None)),
            outcome(r) == old(self)@.space(app_id@).send_outcome(socket_id@),
    {
        let pong = PusherMessage {
            channel: None,
            name: None,
            event: Some("pusher:pong".to_string()),
            data: None,
        };
        self.connection_manager.send_message(app_id, socket_id, Outgoing::Message(pong))
    }

    /// The channel that the data of a subscription name.
    pub(crate) fn channel_of(data: &Option<MessageData>) -> (r: Option<String>)
        ensures
            opt_text(r) == named_channel(opt_view(*data)),
    {
        match data {
            Some(MessageData::String(s)) => Some(s.clone()),
            Some(MessageData::Structured { channel, .. }) => copy_opt(channel),
            Some(MessageData::Json(v)) => v.get_str("channel"),
            None => None,
        }
    }

    /// The signature that the data of a subscription give; empty where there is none.
    pub(crate) fn auth_of(data: &Option<MessageData>) -> (r: String)
        ensures
            r@ == given_auth(opt_view(*data)),
    {
        let given = match data {
            Some(MessageData::String(s)) => Some(s.clone()),
            Some(MessageData::Structured { extra, .. }) => get_extra_str(extra, "auth"),
            Some(MessageData::Json(v)) => v.get_str("auth"),
            None => None,
        };
        match given {
            Some(s) => s,
            None => "".to_string(),
        }
    }

    /// Handles a subscription. What it gives back is left to do: to publish, and to finish the
    /// subscription with the outcome.
    pub fn handle_subscribe(&mut self, socket_id: &SocketId, app_id: &str, message: &PusherMessage) -> (r:
        Result<Option<Announcement>>)
        requires
            old(self)@.can_subscribe(app_id@, socket_id@, message@.data),
        ensures
            old(self)@.subscribes(app_id@, socket_id@, message@.data, r, final(self)@),
    {
        let ghost start = self@;
        let ghost data = message@.data;
        let channel = match ConnectionHandler::channel_of(&message.data) {
            Some(channel) => channel,
            None => return Ok(None),
        };
        let auth = ConnectionHandler::auth_of(&message.data);
        let known = match self.app_manager.find(app_id) {
            Some(app) => {
                proof {
                    restricted_by_prefix(channel@);
                    reveal_strlit("");
                }
                if (starts_with(channel.as_str(), "presence-") || starts_with(
                    channel.as_str(),
                    "private-",
                )) && same(auth.as_str(), "") {
                    return Err(Error::AuthError("Authentication required".to_string()));
                }
                self.channel_manager.signature_is_valid(app, socket_id, auth.as_str(), message)
            },
            None => return Err(Error::InvalidAppKey),
        };
        let ghost ns = start.space(app_id@);
        let ghost joined = ns.after_join(channel@, socket_id@, data);
        let answer = match self.channel_manager.subscribe(
            &mut self.connection_manager,
            socket_id,
            message,
            channel.as_str(),
            known,
            app_id,
        ) {
            Ok(answer) => answer,
            Err(_) => return Err(Error::ChannelError("Failed to subscribe".to_string())),
        };
        let member = answer.member;
        assert(self@ == start.with_space(app_id@, joined));
        self.note_subscription(app_id, socket_id, channel.as_str(), &member);
        let ghost noted = joined.noted(socket_id@, channel@, opt_view(member));
        assert(self@ =~= start.with_space(app_id@, noted));
        let ghost mid = self@;
        if ChannelType::from_name(channel.as_str()) != ChannelType::Presence {
            let _ = self.connection_manager.send_message(
                app_id,
                socket_id,
                Outgoing::SubscriptionSucceeded { channel, presence: None },
            );
            return Ok(None);
        }
        match member {
            None => Ok(None),
            Some(member) => {
                let members = self.connection_manager.get_channel_members(
                    app_id,
                    channel.as_str(),
                );
                proof {
                    lemma_touched_existing(noted, channel@);
                    assert(self@ =~= mid);
                }
                let summary = ConnectionHandler::summarize(&members);
                let added = Outgoing::MemberAdded {
                    channel: channel.clone(),
                    user_id: member.user_id.clone(),
                    user_info: Some(member.user_info.duplicate()),
                };
                assert(added@ == member_added(channel@, member@));
                match self.connection_manager.broadcast(
                    channel.as_str(),
                    added,
                    Some(socket_id),
                    app_id,
                ) {
                    Ok(publication) => Ok(
                        Some(Announcement { publication, channel, members: summary }),
                    ),
                    Err(e) => {
                        proof {
                            let after = choose|after: NamespaceView| #[trigger]
                                mid.space(app_id@).broadcast_in_part(
                                    channel@,
                                    member_added(channel@, member@),
                                    Some(socket_id@),
                                    after,
                                ) && self.connection_manager.spaces() == mid.spaces.insert(
                                    app_id@,
                                    after,
                                );
                            assert(self@ == mid.with_space(app_id@, after));
                        }
                        Err(e)
                    },
                }
            },
        }
    }

    /// Notes on a connection that it joined a channel, as `member` where that is a presence
    /// channel.
    fn note_subscription(
        &mut self,
        app_id: &str,
        socket_id: &SocketId,
        channel: &str,
        member: &Option<crate::channel::manager::PresenceMember>,
    )
        ensures
            final(self)@ == old(self)@.with_space(
                app_id@,
                old(self)@.space(app_id@).noted(socket_id@, channel@, opt_view(*member)),
            ),
    {
        let ghost ns = self@.space(app_id@);
        match self.connection_manager.get_connection(socket_id, app_id) {
            Some(conn) => {
                conn.state.subscribed_channels.insert(channel.to_string());
                match member {
                    Some(m) => {
                        conn.state.user_id = Some(m.user_id.clone());
                        if conn.state.presence.is_none() {
                            conn.state.presence = Some(Dict::new());
                        }
                        match &mut conn.state.presence {
                            Some(map) => {
                                map.insert(channel.to_string(), m.info());
                            },
                            None => {},
                        }
                    },
                    None => {},
                }
                assert(conn@ == ns.sockets[socket_id@].noted(channel@, opt_view(*member)));
            },
            None => {},
        }
    }

    /// The members of a presence channel, as a new subscriber gets them.
    fn summarize(members: &Dict<PresenceMemberInfo>) -> (r: PresenceSummary)
        ensures
            named_order(r@.ids, members@.dom()),
            r@.hash == members@.map_values(|m: MemberView| m.user_info),
            r@.count == members@.dom().len(),
    {
        let n: usize = members.len();
        let ghost order = members.order();
        let mut ids: Vec<String> = Vec::new();
        let mut hash: Dict<OptionalInfo> = Dict::new();
        let mut i: usize = 0;
        while i < n
            invariant
                i <= n,
                n == order.len(),
                order == members.order(),
                texts(ids@) == order.take(i as int),
                forall|k: Seq<char>| #[trigger]
                    hash@.contains_key(k) <==> order.take(i as int).contains(k),
                forall|k: Seq<char>| #[trigger]
                    hash@.contains_key(k) ==> hash@[k] == members@[k].user_info,
            decreases n - i,
        {
            let key = members.key_at(i);
            let info = members.value_at(i);
            let ghost before = ids@;
            proof {
                let seen = order.take(i as int);
                assert(order.take(i + 1) =~= seen.push(order[i as int]));
                assert forall|k: Seq<char>| seen.push(order[i as int]).contains(k) <==> (
                seen.contains(k) || k == order[i as int]) by {
                    crate::table::lemma_push_contains(seen, order[i as int], k);
                }
            }
            ids.push(key.clone());
            assert(texts(ids@) =~= texts(before).push(order[i as int]));
            hash.insert(key.clone(), OptionalInfo { info: copy_option(&info.user_info) });
            i = i + 1;
        }
        proof {
            assert(order.take(i as int) =~= order);
            assert forall|k: Seq<char>| hash@.contains_key(k) <==> members@.contains_key(k) by {
                assert(order.to_set().contains(k) <==> order.contains(k));
                assert(members@.dom().contains(k) <==> members@.contains_key(k));
            }
            assert(hash@ =~= members@.map_values(|m: MemberView| m.user_info));
        }
        PresenceSummary { ids, hash, count: n }
    }

    /// Finishes a subscription to a presence channel once the other servers were told: tells the
    /// subscriber who is on the channel.
    pub fn finish_subscribe(
        &mut self,
        app_id: &str,
        socket_id: &SocketId,
        channel: String,
        members: PresenceSummary,
        published: std::result::Result<(), String>,
    ) -> (r: Result<()>)
        ensures
            outcome(r) == publish_outcome(published),
            final(self)@ == match published {
                Ok(_) => old(self)@.told(
                    app_id@,
                    socket_id@,
                    OutgoingView::SubscriptionSucceeded {
                        channel: channel@,
                        presence: Some(members@),
                    },
                ),
                Err(_) => old(self)@,
            },
    {
        match published {
            Ok(_) => {
                let _ = self.connection_manager.send_message(
                    app_id,
                    socket_id,
                    Outgoing::SubscriptionSucceeded { channel, presence: Some(members) },
                );
                Ok(())
            },
            Err(text) => Err(
                Error::ConnectionError(concat("Failed to publish: ", text.as_str())),
            ),
        }
    }
}

/// What the subscribers of a presence channel are told of a member that left.
pub open spec fn member_removed(channel: Seq<char>, user_id: Seq<char>) -> OutgoingView {
    OutgoingView::MemberRemoved { channel, user_id }
}

impl ServerView {
    /// Whether leaving a channel can be handled: the message names one, and where it is a presence
    /// channel, the connection exists and has joined one.
    pub open spec fn can_unsubscribe(
        self,
        app_id: Seq<char>,
        id: Seq<char>,
        channel: Option<Seq<char>>,
    ) -> bool {
        &&& channel is Some
        &&& channel_type(channel->0) == ChannelType::Presence ==> self.space(app_id).has_presence(id)
    }

    /// Whether leaving a channel was handled: `r` is what is left to publish, and `after` the
    /// server after it.
    pub open spec fn unsubscribes(
        self,
        app_id: Seq<char>,
        id: Seq<char>,
        channel: Seq<char>,
        r: Option<Publication>,
        after: ServerView,
    ) -> bool {
        let ns = self.space(app_id);
        if channel_type(channel) != ChannelType::Presence {
            r is None && after == self.with_space(app_id, ns.after_leave(channel, id, None))
        } else {
            match ns.sockets[id].state.member_on(channel) {
                None => r is None && after == self.with_space(app_id, ns),
                Some(member) => {
                    let left = ns.after_leave(channel, id, Some(member.user_id));
                    let mid = self.with_space(
                        app_id,
                        left.with_conn(id, ns.sockets[id].struck(channel)),
                    );
                    let message = member_removed(channel, member.user_id);
                    if mid.space(app_id).all_take(channel, Some(id)) {
                        &&& r matches Some(todo)
                        &&& todo@ == publication(self.node, app_id, channel, message, Some(id))
                        &&& after == mid.after_broadcast(app_id, channel, message, Some(id))
                    } else {
                        &&& r is None
                        &&& mid.broadcast_failed(app_id, channel, message, Some(id), after)
                    }
                },
            }
        }
    }
}

/// The text under `field` in the data of a sign-in; data that are a string stand for every field.
pub open spec fn sign_in_field(data: DataView, field: Seq<char>) -> std::result::Result<
    Seq<char>,
    ErrorView,
> {
    let found = match data {
        DataView::String(s) => Some(s),
        DataView::Json(v) => v.get_str(field),
        DataView::Structured { extra, .. } => extra_str(extra, field),
    };
    match found {
        Some(s) => Ok(s),
        None => Err(ErrorView::AuthError("Missing "@ + field + " field"@)),
    }
}

/// The user that a sign-in is for, or why it is refused.
pub open spec fn signed_user(
    apps: Map<Seq<char>, AppView>,
    id: Seq<char>,
    app_key: Seq<char>,
    data: Option<DataView>,
) -> std::result::Result<JsonView, ErrorView> {
    match data {
        None => Err(ErrorView::AuthError("Missing data in signin message"@)),
        Some(data) => match (sign_in_field(data, "user_data"@), sign_in_field(data, "auth"@)) {
            (Err(e), _) => Err(e),
            (_, Err(e)) => Err(e),
            (Ok(user_data), Ok(auth)) => match json_parsed(user_data) {
                Err(message) => Err(ErrorView::AuthError("Invalid user data: "@ + message)),
                Ok(user) => match sign_in_verdict(apps, id, app_key, user_data, auth) {
                    Err(e) => Err(e),
                    Ok(false) => Err(ErrorView::AuthError("Connection not authorized."@)),
                    Ok(true) => Ok(user),
                },
            },
        },
    }
}

/// Why a client event is refused before the connection that sent it is looked at.
pub open spec fn client_event_refusal(event: Seq<char>, channel: Option<Seq<char>>) -> Option<
    ErrorView,
> {
    match channel {
        None => Some(ErrorView::ClientEventError("Channel name is required"@)),
        Some(name) => if !"client-"@.is_prefix_of(event) {
            Some(ErrorView::InvalidEventName("Client events must start with 'client-'"@))
        } else if channel_type(name) != ChannelType::Private && channel_type(name)
            != ChannelType::Presence {
            Some(
                ErrorView::ClientEventError(
                    "Client events can only be sent to private or presence channels"@,
                ),
            )
        } else {
            None
        },
    }
}

/// Whether `may` says whether clients of the application with this key may send events. Where
/// several applications have the key, any of them may count.
pub open spec fn client_events_allowed(
    apps: Map<Seq<char>, AppView>,
    key: Seq<char>,
    may: bool,
) -> bool {
    ||| !key_in_use(apps, key) && !may
    ||| exists|app: AppView| #[trigger]
        registered_with_key(apps, key, app) && may == app.enable_client_messages
}

impl ServerView {
    /// Whether a client event was handled, where `may` says whether clients may send events: `r` is
    /// its result, with what is left to publish, and `after` the server after it.
    pub open spec fn client_event_sent(
        self,
        app_id: Seq<char>,
        id: Seq<char>,
        event: Seq<char>,
        channel: Seq<char>,
        data: JsonView,
        may: bool,
        r: Result<Publication>,
        after: ServerView,
    ) -> bool {
        let ns = self.space(app_id);
        let message = channel_event(Some(event), channel, data);
        if !may {
            &&& outcome(r) == Err::<PublicationView, ErrorView>(
                ErrorView::ClientEventError("Client events are not enabled for this app"@),
            )
            &&& after == self
        } else if !ns.room(channel).sockets.contains(id) {
            &&& outcome(r) == Err::<PublicationView, ErrorView>(
                ErrorView::ClientEventError(
                    "Client "@ + id + " is not subscribed to channel "@ + channel,
                ),
            )
            &&& after == self.with_space(app_id, ns.touched(channel))
        } else if ns.all_take(channel, Some(id)) {
            &&& outcome(r) == Ok::<PublicationView, ErrorView>(
                publication(self.node, app_id, channel, message, Some(id)),
            )
            &&& after == self.after_broadcast(app_id, channel, message, Some(id))
        } else {
            &&& outcome(r) == Err::<PublicationView, ErrorView>(writer_gone())
            &&& self.broadcast_failed(app_id, channel, message, Some(id), after)
        }
    }
}

impl ConnectionHandler {
    /// Takes a connection off a channel. On a presence channel the others are told that the member
    /// left; what it gives back is left to publish, and whether that succeeds changes nothing.
    pub fn handle_unsubscribe(
        &mut self,
        socket_id: &SocketId,
        message: &PusherMessage,
        app_id: &str,
    ) -> (r: Option<Publication>)
        requires
            old(self)@.can_unsubscribe(app_id@, socket_id@, message@.channel),
        ensures
            old(self)@.unsubscribes(app_id@, socket_id@, message@.channel->0, r, final(self)@),
    {
        let channel = match &message.channel {
            Some(channel) => channel.as_str(),
            None => return None,
        };
        let ghost start = self@;
        let ghost ns = start.space(app_id@);
        if ChannelType::from_name(channel) != ChannelType::Presence {
            let _ = self.channel_manager.unsubscribe(
                &mut self.connection_manager,
                socket_id,
                channel,
                app_id,
                None,
            );
            return None;
        }
        let member = match self.connection_manager.get_presence_member(app_id, channel, socket_id) {
            Some(member) => member,
            None => return None,
        };
        let _ = self.channel_manager.unsubscribe(
            &mut self.connection_manager,
            socket_id,
            channel,
            app_id,
            Some(member.user_id.as_str()),
        );
        let ghost left = ns.after_leave(channel@, socket_id@, Some(member@.user_id));
        assert(self@ =~= start.with_space(app_id@, left));
        match self.connection_manager.get_connection(socket_id, app_id) {
            Some(conn) => {
                match &mut conn.state.presence {
                    Some(map) => {
                        map.remove(channel);
                    },
                    None => {},
                }
                conn.state.subscribed_channels.remove(channel);
                assert(conn@ == ns.sockets[socket_id@].struck(channel@));
            },
            None => {},
        }
        let ghost mid = start.with_space(
            app_id@,
            left.with_conn(socket_id@, ns.sockets[socket_id@].struck(channel@)),
        );
        assert(self@ =~= mid);
        let removed = Outgoing::MemberRemoved {
            channel: channel.to_string(),
            user_id: member.user_id,
        };
        match self.connection_manager.broadcast(channel, removed, Some(socket_id), app_id) {
            Ok(publication) => {
                assert(self@ =~= mid.after_broadcast(
                    app_id@,
                    channel@,
                    removed@,
                    Some(socket_id@),
                ));
                Some(publication)
            },
            Err(_) => {
                proof {
                    let after = choose|after: NamespaceView| #[trigger]
                        mid.space(app_id@).broadcast_in_part(
                            channel@,
                            removed@,
                            Some(socket_id@),
                            after,
                        ) && self.connection_manager.spaces() == mid.spaces.insert(app_id@, after);
                    assert(self@ == mid.with_space(app_id@, after));
                }
                None
            },
        }
    }

    /// The text under `field` in the data of a sign-in.
    fn field_of(data: &MessageData, field: &str) -> (r: Result<String>)
        ensures
            outcome(r) == sign_in_field(data@, field@),
    {
        let found = match data {
            MessageData::String(s) => Some(s.clone()),
            MessageData::Json(v) => v.get_str(field),
            MessageData::Structured { extra, .. } => get_extra_str(extra, field),
        };
        match found {
            Some(s) => Ok(s),
            None => Err(Error::AuthError(join("Missing ", field, " field"))),
        }
    }

    /// The user that a sign-in is for, or why it is refused.
    fn check_sign_in(&self, socket_id: &SocketId, app_key: &str, data: &Option<MessageData>) -> (r:
        Result<Json>)
        ensures
            outcome(r) == signed_user(self@.apps, socket_id@, app_key@, opt_view(*data)),
    {
        let data = match data {
            Some(data) => data,
            None => return Err(Error::AuthError("Missing data in signin message".to_string())),
        };
        let user_data = match ConnectionHandler::field_of(data, "user_data") {
            Ok(text) => text,
            Err(e) => return Err(e),
        };
        let auth = match ConnectionHandler::field_of(data, "auth") {
            Ok(text) => text,
            Err(e) => return Err(e),
        };
        let user = match Json::parse(user_data.as_str()) {
            Ok(user) => user,
            Err(message) => return Err(
                Error::AuthError(concat("Invalid user data: ", message.as_str())),
            ),
        };
        let validator = AuthValidator::new(&self.app_manager);
        match validator.validate_channel_auth(
            socket_id,
            app_key,
            user_data.as_str(),
            auth.as_str(),
        ) {
            Ok(true) => Ok(user),
            Ok(false) => Err(Error::AuthError("Connection not authorized.".to_string())),
            Err(e) => Err(e),
        }
    }

    /// Signs a user in over a connection.
    pub fn handle_signin(
        &mut self,
        socket_id: &SocketId,
        message: &PusherMessage,
        app_id: &str,
        app_key: &str,
    ) -> (r: Result<()>)
        ensures
            outcome(r) == old(self)@.sign_in_outcome(app_id@, app_key@, socket_id@, message@.data),
            final(self)@ == old(self)@.after_sign_in(app_id@, app_key@, socket_id@, message@.data),
    {
        let ghost start = self@;
        let ghost ns = start.space(app_id@);
        let user = match self.check_sign_in(socket_id, app_key, &message.data) {
            Ok(user) => user,
            Err(e) => return Err(e),
        };
        match self.connection_manager.get_connection(socket_id, app_id) {
            Some(conn) => {
                conn.state.user = Some(user.duplicate());
            },
            None => return Err(Error::ConnectionNotFound),
        }
        assert(self@ =~= start.with_space(app_id@, ns.signed(socket_id@, user@)));
        let success = PusherMessage {
            channel: None,
            name: None,
            event: Some("pusher:signin_success".to_string()),
            data: Some(MessageData::Json(user)),
        };
        assert(success@ == MessageView {
            channel: None,
            name: None,
            event: Some("pusher:signin_success"@),
            data: Some(DataView::Json(user@)),
        });
        self.connection_manager.send_message(app_id, socket_id, Outgoing::Message(success))
    }

    /// Sends an event of a client to the others on a private or presence channel. What it gives
    /// back is left to publish.
    pub fn handle_client_event(
        &mut self,
        app_id: &str,
        socket_id: &SocketId,
        event: &str,
        channel: Option<&str>,
        data: Json,
    ) -> (r: Result<Publication>)
        requires
            old(self)@.can_send_client_event(app_id@, socket_id@, event@, opt_str(channel)),
        ensures
            old(self)@.client_event_handled(
                app_id@,
                socket_id@,
                event@,
                opt_str(channel),
                data@,
                r,
                final(self)@,
            ),
    {
        let ghost start = self@;
        let ghost ns = start.space(app_id@);
        let name = match channel {
            Some(name) => name,
            None => return Err(Error::ClientEventError("Channel name is required".to_string())),
        };
        if !starts_with(event, "client-") {
            return Err(
                Error::InvalidEventName("Client events must start with 'client-'".to_string()),
            );
        }
        let kind = ChannelType::from_name(name);
        if kind != ChannelType::Private && kind != ChannelType::Presence {
            return Err(
                Error::ClientEventError(
                    "Client events can only be sent to private or presence channels".to_string(),
                ),
            );
        }
        let app_key = match self.connection_manager.find_connection(app_id, socket_id) {
            Some(conn) => conn.state.get_app_key(),
            None => return Err(Error::ConnectionNotFound),
        };
        let may = match self.app_manager.can_handle_client_events(app_key.as_str()) {
            Ok(may) => may,
            Err(e) => return Err(e),
        };
        assert(client_events_allowed(start.apps, ns.sockets[socket_id@].state.app_key(), may));
        if !may {
            return Err(
                Error::ClientEventError("Client events are not enabled for this app".to_string()),
            );
        }
        if !self.connection_manager.is_in_channel(app_id, name, socket_id) {
            let who = join("Client ", socket_id.0.as_str(), " is not subscribed to channel ");
            return Err(Error::ClientEventError(concat(who.as_str(), name)));
        }
        proof {
            assert(ns.channels.contains_key(name@));
            lemma_touched_existing(ns, name@);
            assert(self@ =~= start);
        }
        let message = PusherMessage {
            channel: Some(name.to_string()),
            name: None,
            event: Some(event.to_string()),
            data: Some(MessageData::Json(data)),
        };
        let ghost sent = channel_event(Some(event@), name@, data@);
        assert(message@ == MessageView {
            channel: Some(name@),
            name: None,
            event: Some(event@),
            data: Some(DataView::Json(data@)),
        });
        match self.connection_manager.broadcast(
            name,
            Outgoing::Message(message),
            Some(socket_id),
            app_id,
        ) {
            Ok(publication) => Ok(publication),
            Err(e) => {
                proof {
                    let after = choose|after: NamespaceView| #[trigger]
                        start.space(app_id@).broadcast_in_part(
                            name@,
                            sent,
                            Some(socket_id@),
                            after,
                        ) && self.connection_manager.spaces() == start.spaces.insert(
                            app_id@,
                            after,
                        );
                    assert(self@ == start.with_space(app_id@, after));
                }
                Err(e)
            },
        }
    }
}

impl ServerView {
    /// What a sign-in gives.
    pub open spec fn sign_in_outcome(
        self,
        app_id: Seq<char>,
        app_key: Seq<char>,
        id: Seq<char>,
        data: Option<DataView>,
    ) -> std::result::Result<(), ErrorView> {
        match signed_user(self.apps, id, app_key, data) {
            Err(e) => Err(e),
            Ok(_) => if self.space(app_id).sockets.contains_key(id) {
                self.space(app_id).send_outcome(id)
            } else {
                Err(ErrorView::ConnectionNotFound)
            },
        }
    }

    /// The server after a sign-in.
    pub open spec fn after_sign_in(
        self,
        app_id: Seq<char>,
        app_key: Seq<char>,
        id: Seq<char>,
        data: Option<DataView>,
    ) -> ServerView {
        let ns = self.space(app_id);
        match signed_user(self.apps, id, app_key, data) {
            Err(_) => self,
            Ok(user) => if ns.sockets.contains_key(id) {
                self.with_space(app_id, ns.signed(id, user)).told(
                    app_id,
                    id,
                    bare_event("pusher:signin_success"@, Some(DataView::Json(user))),
                )
            } else {
                self.with_space(app_id, ns)
            },
        }
    }

    /// Whether a client event was handled: `r` is its result, with what is left to publish, and
    /// `after` the server after it.
    pub open spec fn client_event_handled(
        self,
        app_id: Seq<char>,
        id: Seq<char>,
        event: Seq<char>,
        channel: Option<Seq<char>>,
        data: JsonView,
        r: Result<Publication>,
        after: ServerView,
    ) -> bool {
        match client_event_refusal(event, channel) {
            Some(e) => outcome(r) == Err::<PublicationView, ErrorView>(e) && after == self,
            None => exists|may: bool| #[trigger]
                client_events_allowed(
                    self.apps,
                    self.space(app_id).sockets[id].state.app_key(),
                    may,
                ) && self.client_event_sent(app_id, id, event, channel->0, data, may, r, after),
        }
    }

    /// Whether a client event can be handled: one that is not refused comes over a connection that
    /// exists.
    pub open spec fn can_send_client_event(
        self,
        app_id: Seq<char>,
        id: Seq<char>,
        event: Seq<char>,
        channel: Option<Seq<char>>,
    ) -> bool {
        client_event_refusal(event, channel) is None ==> self.space(app_id).sockets.contains_key(id)
    }
}

impl NamespaceView {
    /// The namespace after a user signed in over a connection.
    pub open spec fn signed(self, id: Seq<char>, user: JsonView) -> NamespaceView {
        let conn = self.sockets[id];
        self.with_conn(
            id,
            ConnView { state: StateView { user: Some(user), ..conn.state }, ..conn },
        )
    }
}

} // verus!
