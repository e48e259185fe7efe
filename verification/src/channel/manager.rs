//! Subscribing to channels and leaving them.

use vstd::prelude::*;

use crate::adapter::local_adapter::space;
use crate::app::config::{App, AppView};
use crate::channel::types::{channel_type, restricted, ChannelType, MemberView, PresenceMemberInfo};
use crate::connection::manager::ConnectionManager;
use crate::connection::redis_manager::RedisConnectionManager;
use crate::error::{outcome, Error, ErrorView, Result};
use crate::json::{json_parsed, Json, JsonView};
use crate::model::{opt_view, Duplicate};
use crate::namespace::{ChannelData, NamespaceView, RoomView};
use crate::protocol::{extra_str, get_extra_str, DataView, MessageData, PusherMessage};
use crate::table::{Dict, Table};
use crate::text::{copy_opt, join, opt_str, opt_text};
use crate::token::{secure_compare, signature, Token};
use crate::websocket::SocketId;

verus! {

/// A member of a presence channel, as it introduces itself.
pub struct PresenceMember {
    pub user_id: String,
    pub user_info: Json,
    pub socket_id: Option<String>,
}

/// A member of a presence channel by its view.
#[verifier::ext_equal]
pub struct PresenceView {
    pub user_id: Seq<char>,
    pub user_info: JsonView,
    pub socket_id: Option<Seq<char>>,
}

impl View for PresenceMember {
    type V = PresenceView;

    open spec fn view(&self) -> PresenceView {
        PresenceView {
            user_id: self.user_id@,
            user_info: self.user_info@,
            socket_id: opt_text(self.socket_id),
        }
    }
}

impl Duplicate for PresenceMember {
    fn duplicate(&self) -> (r: Self) {
        PresenceMember {
            user_id: self.user_id.clone(),
            user_info: self.user_info.duplicate(),
            socket_id: copy_opt(&self.socket_id),
        }
    }
}

impl Clone for PresenceMember {
    fn clone(&self) -> (r: Self)
        ensures
            r@ == self@,
    {
        self.duplicate()
    }
}

impl PresenceView {
    /// What is noted of the member.
    pub open spec fn info(self) -> MemberView {
        MemberView { user_id: self.user_id, user_info: Some(self.user_info) }
    }
}

impl PresenceMember {
    /// What is noted of the member.
    pub fn info(&self) -> (r: PresenceMemberInfo)
        ensures
            r@ == self@.info(),
    {
        PresenceMemberInfo {
            user_id: self.user_id.clone(),
            user_info: Some(self.user_info.duplicate()),
        }
    }
}

/// The answer to a subscription.
pub struct JoinResponse {
    pub success: bool,
    /// How many connections are subscribed to the channel.
    pub channel_connections: Option<i32>,
    pub auth_error: Option<String>,
    /// The member that joined a presence channel.
    pub member: Option<PresenceMember>,
    pub error_message: Option<String>,
    pub error_code: Option<i32>,
    pub _type: Option<String>,
}

/// The answer to a subscription, by its view.
#[verifier::ext_equal]
pub struct JoinView {
    pub success: bool,
    pub channel_connections: Option<i32>,
    pub auth_error: Option<Seq<char>>,
    pub member: Option<PresenceView>,
    pub error_message: Option<Seq<char>>,
    pub error_code: Option<i32>,
    pub _type: Option<Seq<char>>,
}

impl View for JoinResponse {
    type V = JoinView;

    open spec fn view(&self) -> JoinView {
        JoinView {
            success: self.success,
            channel_connections: self.channel_connections,
            auth_error: opt_text(self.auth_error),
            member: opt_view(self.member),
            error_message: opt_text(self.error_message),
            error_code: self.error_code,
            _type: opt_text(self._type),
        }
    }
}

impl JoinView {
    /// The answer to a subscription that succeeded.
    pub open spec fn joined(connections: nat, member: Option<PresenceView>) -> JoinView {
        JoinView {
            success: true,
            channel_connections: Some(connections as i32),
            auth_error: None,
            member,
            error_message: None,
            error_code: None,
            _type: None,
        }
    }
}

/// The answer to leaving a channel.
pub struct LeaveResponse {
    /// Whether the connection was on the channel.
    pub left: bool,
    /// How many connections are left on the channel.
    pub remaining_connections: Option<usize>,
    /// The member that left a presence channel.
    pub member: Option<PresenceMember>,
}

/// The answer to leaving a channel, by its view.
#[verifier::ext_equal]
pub struct LeaveView {
    pub left: bool,
    pub remaining_connections: Option<int>,
    pub member: Option<PresenceView>,
}

impl View for LeaveResponse {
    type V = LeaveView;

    open spec fn view(&self) -> LeaveView {
        LeaveView {
            left: self.left,
            remaining_connections: match self.remaining_connections {
                Some(n) => Some(n as int),
                None => None,
            },
            member: opt_view(self.member),
        }
    }
}

/// The member that a JSON value introduces; `extra` are the other fields of the message.
pub open spec fn introduced(data: JsonView, extra: Map<Seq<char>, JsonView>) -> std::result::Result<
    PresenceView,
    ErrorView,
> {
    match data.get_str("user_id"@) {
        None => Err(ErrorView::ChannelError("Invalid user_id"@)),
        Some(user_id) => Ok(
            PresenceView {
                user_id,
                user_info: match data.get("user_info"@) {
                    Some(info) => info,
                    None => JsonView::Null,
                },
                socket_id: extra_str(extra, "socket_id"@),
            },
        ),
    }
}

/// The member that the data of a subscription introduces.
pub open spec fn presence_data(data: Option<DataView>) -> std::result::Result<
    PresenceView,
    ErrorView,
> {
    match data {
        None => Err(ErrorView::ChannelError("Missing presence data"@)),
        Some(DataView::Structured { channel_data, extra, .. }) => match channel_data {
            None => Err(ErrorView::ChannelError("Missing channel_data"@)),
            Some(text) => match json_parsed(text) {
                Ok(value) => introduced(value, extra),
                Err(message) => Err(ErrorView::SerializationError(message)),
            },
        },
        Some(DataView::Json(value)) => introduced(value, Map::empty()),
        Some(DataView::String(_)) => Err(ErrorView::ChannelError("Invalid presence data format"@)),
    }
}

/// The data of a subscription that can be signed: it names a channel, and for a presence channel
/// says who joins.
pub open spec fn signable(data: Option<DataView>) -> bool {
    match data {
        Some(DataView::Structured { channel_data, channel: Some(name), .. }) => channel_type(name)
            == ChannelType::Presence ==> channel_data is Some,
        _ => false,
    }
}

/// What a connection signs to subscribe to a channel: its id and the channel's name, and on a
/// presence channel who joins, with colons between.
pub open spec fn text_to_sign(socket_id: Seq<char>, data: Option<DataView>) -> Seq<char> {
    match data {
        Some(DataView::Structured { channel_data: Some(who), channel: Some(name), .. }) => {
            if channel_type(name) == ChannelType::Presence {
                socket_id + ":"@ + name + ":"@ + who
            } else {
                socket_id + ":"@ + name
            }
        },
        Some(DataView::Structured { channel_data: None, channel: Some(name), .. }) => socket_id
            + ":"@ + name,
        _ => Seq::empty(),
    }
}

/// The signature that a subscription needs: the application's key, a colon, and what the
/// connection signs under the application's secret.
pub open spec fn expected_signature(
    app: AppView,
    socket_id: Seq<char>,
    data: Option<DataView>,
) -> Seq<char> {
    app.key + ":"@ + signature(app.secret, text_to_sign(socket_id, data))
}

impl RoomView {
    /// The channel after a connection joined, with the member it introduced on a presence channel.
    pub open spec fn entered(self, id: Seq<char>, member: Option<PresenceView>) -> RoomView {
        RoomView {
            sockets: self.sockets.insert(id),
            presence_members: match member {
                Some(m) => Some(
                    match self.presence_members {
                        Some(map) => map,
                        None => Map::empty(),
                    }.insert(m.user_id, m.info()),
                ),
                None => self.presence_members,
            },
        }
    }

    /// The channel after a connection left, and on a presence channel the user with it.
    pub open spec fn exited(
        self,
        channel: Seq<char>,
        id: Seq<char>,
        user_id: Option<Seq<char>>,
    ) -> RoomView {
        RoomView {
            sockets: self.sockets.remove(id),
            presence_members: match (self.presence_members, user_id) {
                (Some(map), Some(u)) => if channel_type(channel) == ChannelType::Presence {
                    Some(map.remove(u))
                } else {
                    Some(map)
                },
                (members, _) => members,
            },
        }
    }

    /// The member that leaves a presence channel.
    pub open spec fn exiting(
        self,
        channel: Seq<char>,
        id: Seq<char>,
        user_id: Option<Seq<char>>,
    ) -> Option<PresenceView> {
        match (self.presence_members, user_id) {
            (Some(map), Some(u)) => if channel_type(channel) == ChannelType::Presence
                && map.contains_key(u) {
                Some(
                    PresenceView {
                        user_id: map[u].user_id,
                        user_info: match map[u].user_info {
                            Some(info) => info,
                            None => JsonView::Null,
                        },
                        socket_id: Some(id),
                    },
                )
            } else {
                None
            },
            _ => None,
        }
    }
}

impl NamespaceView {
    /// What a subscription to a channel gives.
    pub open spec fn join_outcome(
        self,
        channel: Seq<char>,
        id: Seq<char>,
        data: Option<DataView>,
        authenticated: bool,
    ) -> std::result::Result<JoinView, ErrorView> {
        let room = self.room(channel);
        if restricted(channel) && !authenticated {
            Err(ErrorView::AuthError("Channel requires authentication"@))
        } else if room.sockets.contains(id) {
            Ok(JoinView::joined(room.sockets.len(), None))
        } else if channel_type(channel) == ChannelType::Presence {
            match presence_data(data) {
                Ok(member) => Ok(JoinView::joined(room.sockets.insert(id).len(), Some(member))),
                Err(e) => Err(e),
            }
        } else {
            Ok(JoinView::joined(room.sockets.insert(id).len(), None))
        }
    }

    /// The namespace after a subscription to a channel by a connection that may join it.
    pub open spec fn after_join(
        self,
        channel: Seq<char>,
        id: Seq<char>,
        data: Option<DataView>,
    ) -> NamespaceView {
        let room = self.room(channel);
        if room.sockets.contains(id) {
            self.touched(channel)
        } else if channel_type(channel) == ChannelType::Presence {
            match presence_data(data) {
                Ok(member) => self.with_room(channel, room.entered(id, Some(member))),
                Err(_) => self.touched(channel),
            }
        } else {
            self.with_room(channel, room.entered(id, None))
        }
    }

    /// The answer to leaving a channel.
    pub open spec fn leave_answer(
        self,
        channel: Seq<char>,
        id: Seq<char>,
        user_id: Option<Seq<char>>,
    ) -> LeaveView {
        let room = self.room(channel);
        LeaveView {
            left: room.sockets.contains(id),
            remaining_connections: Some(room.sockets.remove(id).len() as int),
            member: room.exiting(channel, id, user_id),
        }
    }

    /// The namespace after a connection left a channel: one that nobody is left on is gone.
    pub open spec fn after_leave(
        self,
        channel: Seq<char>,
        id: Seq<char>,
        user_id: Option<Seq<char>>,
    ) -> NamespaceView {
        let room = self.room(channel).exited(channel, id, user_id);
        if room.sockets == Set::<Seq<char>>::empty() {
            NamespaceView { channels: self.channels.remove(channel), ..self }
        } else {
            self.with_room(channel, room)
        }
    }
}

/// Handles subscriptions.
pub struct ChannelManager {}

impl ChannelManager {
    /// A manager of subscriptions.
    pub fn new() -> (r: Self) {
        ChannelManager {  }
    }

    /// Subscribes a connection to a channel. Private and presence channels are for authenticated
    /// connections only; on a presence channel the data of the message say who joins. To subscribe
    /// again changes nothing.
    pub fn subscribe(
        &self,
        manager: &mut RedisConnectionManager,
        socket_id: &SocketId,
        data: &PusherMessage,
        channel_name: &str,
        is_authenticated: bool,
        app_id: &str,
    ) -> (r: Result<JoinResponse>)
        ensures
            outcome(r) == space(old(manager).spaces(), app_id@).join_outcome(
                channel_name@,
                socket_id@,
                data@.data,
                is_authenticated,
            ),
            final(manager).node() == old(manager).node(),
            final(manager).redis_channel_name() == old(manager).redis_channel_name(),
            final(manager).spaces() == if restricted(channel_name@) && !is_authenticated {
                old(manager).spaces()
            } else {
                old(manager).spaces().insert(
                    app_id@,
                    space(old(manager).spaces(), app_id@).after_join(
                        channel_name@,
                        socket_id@,
                        data@.data,
                    ),
                )
            },
    {
        let kind = ChannelType::from_name(channel_name);
        if kind.requires_authentication() && !is_authenticated {
            return Err(Error::AuthError("Channel requires authentication".to_string()));
        }
        let ghost start = space(manager.spaces(), app_id@);
        let ns = manager.get_namespace(app_id);
        if !ns.channels.contains_key(channel_name) {
            ns.channels.insert(channel_name.to_string(), ChannelData::new());
        }
        assert(ns@.channels =~= start.touched(channel_name@).channels);
        let ghost room = start.room(channel_name@);
        let channel = ns.channels.get_mut(channel_name).unwrap();
        if channel.sockets.contains(socket_id.0.as_str()) {
            let connections: usize = channel.sockets.len();
            assert(ns@.channels =~= start.touched(channel_name@).channels);
            return Ok(ChannelManager::joined(connections, None));
        }
        let member = if kind == ChannelType::Presence {
            match self.parse_presence_data(&data.data) {
                Ok(member) => Some(member),
                Err(e) => {
                    assert(ns@.channels =~= start.touched(channel_name@).channels);
                    return Err(e);
                },
            }
        } else {
            None
        };
        match &member {
            Some(m) => {
                if channel.presence_members.is_none() {
                    channel.presence_members = Some(Table::new());
                }
                match &mut channel.presence_members {
                    Some(members) => {
                        members.insert(m.user_id.clone(), m.info());
                    },
                    None => {},
                }
            },
            None => {},
        }
        channel.sockets.insert(socket_id.0.clone());
        let connections: usize = channel.sockets.len();
        assert(channel@ == room.entered(socket_id@, opt_view(member)));
        assert(ns@.channels =~= start.with_room(
            channel_name@,
            room.entered(socket_id@, opt_view(member)),
        ).channels);
        Ok(ChannelManager::joined(connections, member))
    }

    /// The answer to a subscription that succeeded.
    fn joined(connections: usize, member: Option<PresenceMember>) -> (r: JoinResponse)
        ensures
            r@ == JoinView::joined(connections as nat, opt_view(member)),
    {
        JoinResponse {
            success: true,
            channel_connections: Some(connections as i32),
            auth_error: None,
            member,
            error_message: None,
            error_code: None,
            _type: None,
        }
    }

    /// Takes a connection off a channel, and on a presence channel the user with it. A channel that
    /// nobody is left on is removed.
    pub fn unsubscribe(
        &self,
        manager: &mut RedisConnectionManager,
        socket_id: &SocketId,
        channel_name: &str,
        app_id: &str,
        user_id: Option<&str>,
    ) -> (r: Result<LeaveResponse>)
        ensures
            outcome(r) == Ok::<LeaveView, ErrorView>(
                space(old(manager).spaces(), app_id@).leave_answer(
                    channel_name@,
                    socket_id@,
                    opt_str(user_id),
                ),
            ),
            final(manager).node() == old(manager).node(),
            final(manager).redis_channel_name() == old(manager).redis_channel_name(),
            final(manager).spaces() == old(manager).spaces().insert(
                app_id@,
                space(old(manager).spaces(), app_id@).after_leave(
                    channel_name@,
                    socket_id@,
                    opt_str(user_id),
                ),
            ),
    {
        let ghost start = space(manager.spaces(), app_id@);
        let ghost room = start.room(channel_name@);
        let ghost after = room.exited(channel_name@, socket_id@, opt_str(user_id));
        let ns = manager.get_namespace(app_id);
        if !ns.channels.contains_key(channel_name) {
            ns.channels.insert(channel_name.to_string(), ChannelData::new());
        }
        assert(ns@.channels =~= start.touched(channel_name@).channels);
        let channel = ns.channels.get_mut(channel_name).unwrap();
        let mut member: Option<PresenceMember> = None;
        if ChannelType::from_name(channel_name) == ChannelType::Presence {
            match (user_id, &mut channel.presence_members) {
                (Some(user_id), Some(members)) => {
                    match members.remove(user_id) {
                        Some(info) => {
                            member = Some(
                                PresenceMember {
                                    user_id: info.user_id,
                                    user_info: match info.user_info {
                                        Some(info) => info,
                                        None => Json::null(),
                                    },
                                    socket_id: Some(socket_id.0.clone()),
                                },
                            );
                        },
                        None => {},
                    }
                },
                _ => {},
            }
        }
        let left = channel.sockets.remove(socket_id.0.as_str());
        let remaining: usize = channel.sockets.len();
        let vacant = channel.sockets.is_empty();
        assert(channel@ == after);
        if vacant {
            ns.remove_channel(channel_name);
        }
        proof {
            if vacant {
                assert(ns@.channels =~= start.channels.remove(channel_name@));
            } else {
                assert(ns@.channels =~= start.with_room(channel_name@, after).channels);
            }
        }
        Ok(LeaveResponse { left, remaining_connections: Some(remaining), member })
    }

    /// The member that the data of a subscription introduces.
    pub fn parse_presence_data(&self, data: &Option<MessageData>) -> (r: Result<PresenceMember>)
        ensures
            outcome(r) == presence_data(opt_view(*data)),
    {
        match data {
            None => Err(Error::ChannelError("Missing presence data".to_string())),
            Some(MessageData::Structured { channel_data, extra, .. }) => match channel_data {
                None => Err(Error::ChannelError("Missing channel_data".to_string())),
                Some(text) => match Json::parse(text.as_str()) {
                    Ok(value) => self.extract_presence_member(&value, extra),
                    Err(message) => Err(Error::SerializationError(message)),
                },
            },
            Some(MessageData::Json(value)) => self.extract_presence_member(value, &Dict::new()),
            Some(MessageData::String(_)) => Err(
                Error::ChannelError("Invalid presence data format".to_string()),
            ),
        }
    }

    /// The member that a JSON value introduces; `extra` are the other fields of the message.
    pub fn extract_presence_member(&self, data: &Json, extra: &Dict<Json>) -> (r: Result<
        PresenceMember,
    >)
        ensures
            outcome(r) == introduced(data@, extra@),
    {
        match data.get_str("user_id") {
            None => Err(Error::ChannelError("Invalid user_id".to_string())),
            Some(user_id) => {
                let user_info = match data.get("user_info") {
                    Some(info) => info,
                    None => Json::null(),
                };
                let socket_id = get_extra_str(extra, "socket_id");
                Ok(PresenceMember { user_id, user_info, socket_id })
            },
        }
    }

    /// Whether `signature` is the one that a subscription needs.
    pub fn signature_is_valid(
        &self,
        app_config: &App,
        socket_id: &SocketId,
        signature: &str,
        message: &PusherMessage,
    ) -> (r: bool)
        requires
            signable(message@.data),
        ensures
            r == (signature@ == expected_signature(app_config@, socket_id@, message@.data)),
    {
        let expected = ChannelManager::get_expected_signature(app_config, socket_id, message);
        secure_compare(signature, expected.as_str())
    }

    /// The signature that a subscription needs.
    pub fn get_expected_signature(app_config: &App, socket_id: &SocketId, message: &PusherMessage) -> (r:
        String)
        requires
            signable(message@.data),
        ensures
            r@ == expected_signature(app_config@, socket_id@, message@.data),
    {
        let token = Token::new(app_config.key.clone(), app_config.secret.clone());
        let text = ChannelManager::get_data_to_sign_for_signature(socket_id, message);
        join(app_config.key.as_str(), ":", token.sign(text).as_str())
    }

    /// What a connection signs to subscribe to a channel.
    pub fn get_data_to_sign_for_signature(socket_id: &SocketId, message: &PusherMessage) -> (r:
        String)
        requires
            signable(message@.data),
        ensures
            r@ == text_to_sign(socket_id@, message@.data),
    {
        match &message.data {
            Some(MessageData::Structured { channel_data, channel, .. }) => match (
                channel,
                channel_data,
            ) {
                (Some(name), Some(who)) => {
                    let plain = join(socket_id.0.as_str(), ":", name.as_str());
                    if ChannelType::from_name(name.as_str()) == ChannelType::Presence {
                        join(plain.as_str(), ":", who.as_str())
                    } else {
                        plain
                    }
                },
                (Some(name), None) => join(socket_id.0.as_str(), ":", name.as_str()),
                _ => String::new(),
            },
            _ => String::new(),
        }
    }
}

} // verus!
