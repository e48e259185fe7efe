//! The life of a connection: how it is taken in, how its messages are handled, how it goes.

use vstd::prelude::*;
use vstd::utf8::*;

use crate::adapter::local_adapter::space;
use crate::app::config::AppView;
use crate::app::manager::AppManager;
use crate::app::memory_app_manager::app_with_id;
use crate::channel::types::ChannelType;
use crate::connection::handler::{
    bare_event, channel_event, publish_outcome, Announcement, ConnectionHandler, ServerView,
};
use crate::connection::manager::ConnectionManager;
use crate::connection::redis_manager::{publication, Publication};
use crate::error::{outcome, Error, ErrorView, Result};
use crate::json::{Json, JsonView};
use crate::model::{opt_view, Duplicate};
use crate::namespace::{opt_id, NamespaceView};
use crate::protocol::{
    DataView, MessageData, MessageView, Outgoing, OutgoingView, PresenceSummary, PusherApiMessage,
    PusherMessage,
};
use crate::text::{concat, copy_opt, opt_text, same, starts_with, text_of, utf8_error};
use crate::websocket::{ConnView, SocketId, StateView, WebSocket};

verus! {

/// What kind of frame came in over a connection.
#[derive(Debug, Clone, Copy, PartialEq, Eq, Structural)]
pub enum OpCode {
    Continuation,
    Text,
    Binary,
    Close,
    Ping,
    Pong,
}

/// What the server does with a frame.
#[derive(Debug, Clone, Copy, PartialEq, Eq, Structural)]
pub enum FrameAction {
    /// Takes the connection off its channels and ends it.
    Disconnect,
    /// Handles the message that the frame holds.
    Handle,
    /// Notes the ping.
    NotePing,
    /// Nothing.
    Ignore,
}

/// What the server does with a frame of a kind.
pub fn frame_action(opcode: OpCode) -> (r: FrameAction)
    ensures
        r == match opcode {
            OpCode::Close => FrameAction::Disconnect,
            OpCode::Text => FrameAction::Handle,
            OpCode::Binary => FrameAction::Handle,
            OpCode::Ping => FrameAction::NotePing,
            OpCode::Continuation => FrameAction::Ignore,
            OpCode::Pong => FrameAction::Ignore,
        },
{
    match opcode {
        OpCode::Close => FrameAction::Disconnect,
        OpCode::Text | OpCode::Binary => FrameAction::Handle,
        OpCode::Ping => FrameAction::NotePing,
        OpCode::Continuation | OpCode::Pong => FrameAction::Ignore,
    }
}

/// The text of a message, which has to be UTF-8.
pub fn message_text(payload: Vec<u8>) -> (r: Result<String>)
    ensures
        match r {
            Ok(text) => valid_utf8(payload@) && encode_utf8(text@) == payload@,
            Err(e) => !valid_utf8(payload@) && e@ == ErrorView::InvalidMessageFormat(
                "Invalid UTF-8: "@ + utf8_error(payload@),
            ),
        },
{
    match text_of(payload) {
        Ok(text) => Ok(text),
        Err(message) => Err(
            Error::InvalidMessageFormat(concat("Invalid UTF-8: ", message.as_str())),
        ),
    }
}

/// Whether a channel has subscribers, and how many.
#[derive(Debug, Clone, Copy, PartialEq, Eq, Structural)]
pub struct ChannelInfo {
    pub occupied: bool,
    pub subscription_count: usize,
}

/// What is left to do of a message once the other servers were told.
pub struct Pending {
    /// The event that the message is about.
    pub event: String,
    /// The channel that the message names.
    pub channel: Option<String>,
    /// The presence channel that was joined, and its members.
    pub joined: Option<(String, PresenceSummary)>,
}

/// What became of a message.
pub enum Handled {
    /// It is done with.
    Done,
    /// It is done with; the other servers have to be told.
    Tell(Publication),
    /// The other servers have to be told, and then it has to be finished with the outcome.
    Ask(Publication, Pending),
    /// It could not be handled, and changed nothing.
    Rejected(Error),
    /// It failed: the connection was told, and taken out. What it has still to write is in `gone`.
    Failed { error: Error, gone: Option<WebSocket> },
}

/// The data of a client event as JSON, where `structured` is that of structured data.
pub open spec fn client_data(data: Option<DataView>, structured: JsonView) -> JsonView {
    match data {
        None => JsonView::Null,
        Some(DataView::String(s)) => JsonView::Str(s),
        Some(DataView::Json(v)) => v,
        Some(DataView::Structured { .. }) => structured,
    }
}

/// The event that the failure of an event is reported as.
pub open spec fn event_failure(event: Seq<char>) -> ErrorView {
    ErrorView::ClientEventError("Failed to handle event: "@ + event)
}

impl ServerView {
    /// The server after a connection was told of an error and taken out.
    pub open spec fn expelled(
        self,
        app_id: Seq<char>,
        id: Seq<char>,
        error: ErrorView,
        channel: Option<Seq<char>>,
    ) -> ServerView {
        let told = self.told(app_id, id, OutgoingView::Failure { error, channel });
        told.with_space(app_id, told.space(app_id).without(set![id]))
    }

    /// Whether the failure of an event was handled: the connection was told of `error` and taken
    /// out, and `r` reports that the event failed.
    pub open spec fn fails(
        self,
        app_id: Seq<char>,
        id: Seq<char>,
        event: Seq<char>,
        channel: Option<Seq<char>>,
        error: ErrorView,
        r: Handled,
        after: ServerView,
    ) -> bool {
        &&& r matches Handled::Failed { error: reported, gone }
        &&& reported@ == event_failure(event)
        &&& opt_view(gone) == self.told(
            app_id,
            id,
            OutgoingView::Failure { error, channel },
        ).space(app_id).taken_out(id)
        &&& after == self.expelled(app_id, id, error, channel)
    }

    /// Whether an event whose handling gave `result` was concluded.
    pub open spec fn concludes(
        self,
        app_id: Seq<char>,
        id: Seq<char>,
        event: Seq<char>,
        channel: Option<Seq<char>>,
        result: std::result::Result<(), ErrorView>,
        r: Handled,
        after: ServerView,
    ) -> bool {
        match result {
            Ok(_) => r is Done && after == self,
            Err(e) => self.fails(app_id, id, event, channel, e, r, after),
        }
    }

    /// Whether a message can be handled.
    pub open spec fn can_handle(
        self,
        app_id: Seq<char>,
        id: Seq<char>,
        message: MessageView,
    ) -> bool {
        match message.event {
            None => true,
            Some(event) => {
                &&& event == "pusher:subscribe"@ ==> self.can_subscribe(app_id, id, message.data)
                &&& event == "pusher:unsubscribe"@ ==> self.can_unsubscribe(
                    app_id,
                    id,
                    message.channel,
                )
                &&& "client-"@.is_prefix_of(event) ==> self.can_send_client_event(
                    app_id,
                    id,
                    event,
                    message.channel,
                )
            },
        }
    }

    /// Whether a message was handled: `r` is what became of it, and `after` the server after it.
    pub open spec fn handles(
        self,
        app_id: Seq<char>,
        app_key: Seq<char>,
        id: Seq<char>,
        message: MessageView,
        structured: JsonView,
        r: Handled,
        after: ServerView,
    ) -> bool {
        match message.event {
            None => {
                &&& r matches Handled::Rejected(e)
                &&& e@ == ErrorView::InvalidEventName("Event name is required"@)
                &&& after == self
            },
            Some(event) => if event == "pusher:ping"@ {
                self.told(app_id, id, bare_event("pusher:pong"@, None)).concludes(
                    app_id,
                    id,
                    event,
                    message.channel,
                    self.space(app_id).send_outcome(id),
                    r,
                    after,
                )
            } else if event == "pusher:subscribe"@ {
                exists|s: Result<Option<Announcement>>, mid: ServerView| #[trigger]
                    self.subscribes(app_id, id, message.data, s, mid) && match s {
                        Ok(None) => r is Done && after == mid,
                        Ok(Some(todo)) => {
                            &&& r matches Handled::Ask(p, left)
                            &&& p@ == todo.publication@
                            &&& left.event@ == event
                            &&& opt_text(left.channel) == message.channel
                            &&& left.joined matches Some((channel, members))
                            &&& channel@ == todo.channel@
                            &&& members@ == todo.members@
                            &&& after == mid
                        },
                        Err(e) => mid.fails(app_id, id, event, message.channel, e@, r, after),
                    }
            } else if event == "pusher:unsubscribe"@ {
                match r {
                    Handled::Done => self.unsubscribes(
                        app_id,
                        id,
                        message.channel->0,
                        None,
                        after,
                    ),
                    Handled::Tell(p) => self.unsubscribes(
                        app_id,
                        id,
                        message.channel->0,
                        Some(p),
                        after,
                    ),
                    _ => false,
                }
            } else if event == "pusher:signin"@ {
                self.after_sign_in(app_id, app_key, id, message.data).concludes(
                    app_id,
                    id,
                    event,
                    message.channel,
                    self.sign_in_outcome(app_id, app_key, id, message.data),
                    r,
                    after,
                )
            } else if "client-"@.is_prefix_of(event) {
                exists|s: Result<Publication>, mid: ServerView| #[trigger]
                    self.client_event_handled(
                        app_id,
                        id,
                        event,
                        message.channel,
                        client_data(message.data, structured),
                        s,
                        mid,
                    ) && match s {
                        Ok(todo) => {
                            &&& r matches Handled::Ask(p, left)
                            &&& p@ == todo@
                            &&& left.event@ == event
                            &&& opt_text(left.channel) == message.channel
                            &&& left.joined is None
                            &&& after == mid
                        },
                        Err(e) => mid.fails(app_id, id, event, message.channel, e@, r, after),
                    }
            } else {
                r is Done && after == self
            },
        }
    }
}

impl ConnectionHandler {
    /// Tells a connection of an error.
    pub fn send_error(
        &mut self,
        app_id: &str,
        socket_id: &SocketId,
        error: Error,
        channel: Option<String>,
    ) -> (r: Result<()>)
        ensures
            final(self)@ == old(self)@.told(
                app_id@,
                socket_id@,
                OutgoingView::Failure { error: error@, channel: opt_text(channel) },
            ),
            outcome(r) == old(self)@.space(app_id@).send_outcome(socket_id@),
    {
        self.connection_manager.send_message(
            app_id,
            socket_id,
            Outgoing::Failure { error, channel },
        )
    }

    /// Tells a connection that it is established.
    pub fn send_connection_established(&mut self, app_id: &str, socket_id: &SocketId) -> (r: Result<
        (),
    >)
        ensures
            final(self)@ == old(self)@.told(
                app_id@,
                socket_id@,
                OutgoingView::ConnectionEstablished { socket_id: socket_id@ },
            ),
            outcome(r) == old(self)@.space(app_id@).send_outcome(socket_id@),
    {
        self.connection_manager.send_message(
            app_id,
            socket_id,
            Outgoing::ConnectionEstablished { socket_id: socket_id.0.clone() },
        )
    }

    /// Tells a connection of an error, takes it out, and reports that the event failed.
    fn fail(
        &mut self,
        app_id: &str,
        socket_id: &SocketId,
        event: &str,
        channel: &Option<String>,
        error: Error,
    ) -> (r: Handled)
        ensures
            old(self)@.fails(
                app_id@,
                socket_id@,
                event@,
                opt_text(*channel),
                error@,
                r,
                final(self)@,
            ),
    {
        let ghost start = self@;
        let ghost told = start.told(
            app_id@,
            socket_id@,
            OutgoingView::Failure { error: error@, channel: opt_text(*channel) },
        );
        let _ = self.send_error(app_id, socket_id, error, copy_opt(channel));
        let gone = self.connection_manager.cleanup_connection(app_id, socket_id);
        assert(self@ =~= told.with_space(
            app_id@,
            told.space(app_id@).without(set![socket_id@]),
        ));
        Handled::Failed {
            error: Error::ClientEventError(concat("Failed to handle event: ", event)),
            gone,
        }
    }

    /// Concludes an event whose handling gave `result`.
    fn conclude(
        &mut self,
        app_id: &str,
        socket_id: &SocketId,
        event: &str,
        channel: &Option<String>,
        result: Result<()>,
    ) -> (r: Handled)
        ensures
            old(self)@.concludes(
                app_id@,
                socket_id@,
                event@,
                opt_text(*channel),
                outcome(result),
                r,
                final(self)@,
            ),
    {
        match result {
            Ok(()) => Handled::Done,
            Err(e) => self.fail(app_id, socket_id, event, channel, e),
        }
    }

    /// Whether a subscription can be handled.
    fn subscription_is_possible(
        &self,
        app_id: &str,
        socket_id: &SocketId,
        message: &PusherMessage,
    ) -> (r: bool)
        ensures
            r == self@.can_subscribe(app_id@, socket_id@, message@.data),
    {
        let channel = match ConnectionHandler::channel_of(&message.data) {
            Some(channel) => channel,
            None => return false,
        };
        let app = match self.app_manager.find(app_id) {
            Some(app) => app,
            None => return true,
        };
        let auth = ConnectionHandler::auth_of(&message.data);
        let kind = ChannelType::from_name(channel.as_str());
        if kind.requires_authentication() && same(auth.as_str(), "") {
            return true;
        }
        let can_be_signed = match &message.data {
            Some(MessageData::Structured { channel_data, channel: Some(_), .. }) => kind
                != ChannelType::Presence || channel_data.is_some(),
            _ => false,
        };
        if !can_be_signed {
            return false;
        }
        if kind != ChannelType::Presence {
            return true;
        }
        let known = self.channel_manager.signature_is_valid(app, socket_id, auth.as_str(), message);
        let present = self.connection_manager.is_subscribed(app_id, channel.as_str(), socket_id);
        let connected = self.connection_manager.find_connection(app_id, socket_id).is_some();
        !(known && present && connected)
    }

    /// Whether leaving a channel can be handled.
    fn departure_is_possible(
        &self,
        app_id: &str,
        socket_id: &SocketId,
        channel: &Option<String>,
    ) -> (r: bool)
        ensures
            r == self@.can_unsubscribe(app_id@, socket_id@, opt_text(*channel)),
    {
        match channel {
            None => false,
            Some(channel) => if ChannelType::from_name(channel.as_str()) == ChannelType::Presence {
                match self.connection_manager.find_connection(app_id, socket_id) {
                    Some(conn) => conn.state.presence.is_some(),
                    None => false,
                }
            } else {
                true
            },
        }
    }

    /// Whether a client event can be handled.
    fn client_event_is_possible(
        &self,
        app_id: &str,
        socket_id: &SocketId,
        event: &str,
        channel: &Option<String>,
    ) -> (r: bool)
        ensures
            r == self@.can_send_client_event(app_id@, socket_id@, event@, opt_text(*channel)),
    {
        match channel {
            None => true,
            Some(name) => {
                let kind = ChannelType::from_name(name.as_str());
                if !starts_with(event, "client-") || (kind != ChannelType::Private && kind
                    != ChannelType::Presence) {
                    true
                } else {
                    self.connection_manager.find_connection(app_id, socket_id).is_some()
                }
            },
        }
    }

    /// Whether a message can be handled. A subscription names a channel, and can be signed where
    /// its signature is looked at; a connection that leaves a presence channel has joined one; a
    /// client event comes over a connection that exists.
    pub fn can_handle(&self, app_id: &str, socket_id: &SocketId, message: &PusherMessage) -> (r:
        bool)
        ensures
            r == self@.can_handle(app_id@, socket_id@, message@),
    {
        proof {
            lemma_event_names();
        }
        match &message.event {
            None => true,
            Some(event) => if same(event.as_str(), "pusher:subscribe") {
                self.subscription_is_possible(app_id, socket_id, message)
            } else if same(event.as_str(), "pusher:unsubscribe") {
                self.departure_is_possible(app_id, socket_id, &message.channel)
            } else if starts_with(event.as_str(), "client-") {
                self.client_event_is_possible(app_id, socket_id, event.as_str(), &message.channel)
            } else {
                true
            },
        }
    }

    /// Handles a message of a connection. `structured` is the JSON form of structured data.
    pub fn handle_message(
        &mut self,
        socket_id: &SocketId,
        app_id: &str,
        app_key: &str,
        message: PusherMessage,
        structured: Json,
    ) -> (r: Handled)
        requires
            old(self)@.can_handle(app_id@, socket_id@, message@),
        ensures
            old(self)@.handles(
                app_id@,
                app_key@,
                socket_id@,
                message@,
                structured@,
                r,
                final(self)@,
            ),
    {
        let ghost start = self@;
        let event = match &message.event {
            Some(event) => event.as_str(),
            None => return Handled::Rejected(
                Error::InvalidEventName("Event name is required".to_string()),
            ),
        };
        proof {
            lemma_event_names();
        }
        if same(event, "pusher:ping") {
            let result = self.handle_ping(app_id, socket_id);
            self.conclude(app_id, socket_id, event, &message.channel, result)
        } else if same(event, "pusher:subscribe") {
            let s = self.handle_subscribe(socket_id, app_id, &message);
            let ghost mid = self@;
            assert(start.subscribes(app_id@, socket_id@, message@.data, s, mid));
            match s {
                Ok(None) => Handled::Done,
                Ok(Some(todo)) => {
                    let left = Pending {
                        event: event.to_string(),
                        channel: copy_opt(&message.channel),
                        joined: Some((todo.channel, todo.members)),
                    };
                    Handled::Ask(todo.publication, left)
                },
                Err(e) => self.fail(app_id, socket_id, event, &message.channel, e),
            }
        } else if same(event, "pusher:unsubscribe") {
            match self.handle_unsubscribe(socket_id, &message, app_id) {
                Some(publication) => Handled::Tell(publication),
                None => Handled::Done,
            }
        } else if same(event, "pusher:signin") {
            let result = self.handle_signin(socket_id, &message, app_id, app_key);
            self.conclude(app_id, socket_id, event, &message.channel, result)
        } else if starts_with(event, "client-") {
            let data = match &message.data {
                None => Json::null(),
                Some(MessageData::String(s)) => Json::string(s.clone()),
                Some(MessageData::Json(v)) => v.duplicate(),
                Some(MessageData::Structured { .. }) => structured,
            };
            let channel = match &message.channel {
                Some(channel) => Some(channel.as_str()),
                None => None,
            };
            let s = self.handle_client_event(app_id, socket_id, event, channel, data);
            let ghost mid = self@;
            assert(start.client_event_handled(
                app_id@,
                socket_id@,
                event@,
                message@.channel,
                client_data(message@.data, structured@),
                s,
                mid,
            ));
            match s {
                Ok(publication) => {
                    let left = Pending {
                        event: event.to_string(),
                        channel: copy_opt(&message.channel),
                        joined: None,
                    };
                    Handled::Ask(publication, left)
                },
                Err(e) => self.fail(app_id, socket_id, event, &message.channel, e),
            }
        } else {
            Handled::Done
        }
    }

    /// Handles a message of a connection where it can be handled, and does nothing where it cannot.
    pub fn receive_message(
        &mut self,
        socket_id: &SocketId,
        app_id: &str,
        app_key: &str,
        message: PusherMessage,
        structured: Json,
    ) -> (r: Option<Handled>)
        ensures
            match r {
                Some(handled) => old(self)@.can_handle(app_id@, socket_id@, message@)
                    && old(self)@.handles(
                    app_id@,
                    app_key@,
                    socket_id@,
                    message@,
                    structured@,
                    handled,
                    final(self)@,
                ),
                None => !old(self)@.can_handle(app_id@, socket_id@, message@) && final(self)@
                    == old(self)@,
            },
    {
        if self.can_handle(app_id, socket_id, &message) {
            Some(self.handle_message(socket_id, app_id, app_key, message, structured))
        } else {
            None
        }
    }

    /// Finishes a message once the other servers were told, with the outcome of that.
    pub fn finish_message(
        &mut self,
        app_id: &str,
        socket_id: &SocketId,
        left: Pending,
        published: std::result::Result<(), String>,
    ) -> (r: Handled)
        ensures
            old(self)@.joined_told(app_id@, socket_id@, left.joined, published).concludes(
                app_id@,
                socket_id@,
                left.event@,
                opt_text(left.channel),
                publish_outcome(published),
                r,
                final(self)@,
            ),
    {
        let Pending { event, channel, joined } = left;
        let result = match joined {
            Some((name, members)) => self.finish_subscribe(
                app_id,
                socket_id,
                name,
                members,
                published,
            ),
            None => match published {
                Ok(_) => Ok(()),
                Err(text) => Err(
                    Error::ConnectionError(concat("Failed to publish: ", text.as_str())),
                ),
            },
        };
        self.conclude(app_id, socket_id, event.as_str(), &channel, result)
    }

    /// Takes a connection in, tells it that it is established, and gives back a connection that had
    /// its id before, with what that has still to write.
    pub fn open_connection(&mut self, app_id: &str, socket_id: &SocketId) -> (r: Option<WebSocket>)
        ensures
            opt_view(r) == old(self)@.space(app_id@).taken_out(socket_id@),
            final(self)@ == old(self)@.admitted(app_id@, socket_id@),
    {
        let ghost start = self@;
        let ghost ns = start.space(app_id@);
        let known = self.connection_manager.find_connection(app_id, socket_id).is_some();
        let mut before: Option<WebSocket> = None;
        if known {
            before = self.connection_manager.cleanup_connection(app_id, socket_id);
        }
        let ghost cleared = if ns.sockets.contains_key(socket_id@) {
            ns.without(set![socket_id@])
        } else {
            ns
        };
        assert(self@.space(app_id@) == cleared);
        let app = self.app_manager.get_app(app_id);
        self.connection_manager.add_connection(socket_id.duplicate(), app_id, app);
        let _ = self.send_connection_established(app_id, socket_id);
        assert(self@ =~= start.admitted(app_id@, socket_id@));
        before
    }

    /// Notes that a ping came in over a connection, and says whether it exists.
    pub fn note_ping(&mut self, app_id: &str, socket_id: &SocketId, now: u64) -> (r: bool)
        ensures
            r == old(self)@.space(app_id@).sockets.contains_key(socket_id@),
            final(self)@ == old(self)@.with_space(
                app_id@,
                old(self)@.space(app_id@).pinged(socket_id@, now),
            ),
    {
        match self.connection_manager.get_connection(socket_id, app_id) {
            Some(conn) => {
                conn.state.update_ping(now);
                true
            },
            None => false,
        }
    }

    /// Whether a channel that `count` connections are subscribed to is occupied, and by how many.
    pub fn channel(&self, count: usize) -> (r: ChannelInfo)
        ensures
            r.occupied == (count > 0),
            r.subscription_count == count,
    {
        ChannelInfo { occupied: count > 0, subscription_count: count }
    }

    /// Sends a message that came in over HTTP to the connections on a channel, but to `socket_id`.
    /// What it gives back is left to publish; a connection that refuses the message is no error.
    pub fn send_message(
        &mut self,
        app_id: &str,
        socket_id: Option<&SocketId>,
        message: &PusherApiMessage,
        channel: &str,
    ) -> (r: Option<Publication>)
        ensures
            old(self)@.sends(
                app_id@,
                opt_id(socket_id),
                message@.name,
                message@.data,
                channel@,
                r,
                final(self)@,
            ),
    {
        let ghost start = self@;
        let data = match &message.data {
            Some(data) => data.duplicate(),
            None => Json::null(),
        };
        let ghost value = data@;
        let event = PusherMessage {
            channel: Some(channel.to_string()),
            name: None,
            event: copy_opt(&message.name),
            data: Some(MessageData::Json(data)),
        };
        assert(event@ == MessageView {
            channel: Some(channel@),
            name: None,
            event: message@.name,
            data: Some(DataView::Json(value)),
        });
        let ghost sent = channel_event(message@.name, channel@, value);
        match self.connection_manager.broadcast(
            channel,
            Outgoing::Message(event),
            socket_id,
            app_id,
        ) {
            Ok(publication) => Some(publication),
            Err(_) => {
                proof {
                    let after = choose|after: NamespaceView| #[trigger]
                        start.space(app_id@).broadcast_in_part(
                            channel@,
                            sent,
                            opt_id(socket_id),
                            after,
                        ) && self.connection_manager.spaces() == start.spaces.insert(
                            app_id@,
                            after,
                        );
                    assert(self@ == start.with_space(app_id@, after));
                }
                None
            },
        }
    }
}

/// The names of the events of the protocol differ, and none is that of a client event.
proof fn lemma_event_names()
    ensures
        "pusher:subscribe"@ != "pusher:unsubscribe"@,
        !"client-"@.is_prefix_of("pusher:subscribe"@),
        !"client-"@.is_prefix_of("pusher:unsubscribe"@),
        !"client-"@.is_prefix_of("pusher:ping"@),
        !"client-"@.is_prefix_of("pusher:signin"@),
        "pusher:ping"@ != "pusher:subscribe"@,
        "pusher:ping"@ != "pusher:unsubscribe"@,
{
    reveal_strlit("pusher:subscribe");
    reveal_strlit("pusher:unsubscribe");
    reveal_strlit("pusher:ping");
    reveal_strlit("pusher:signin");
    reveal_strlit("client-");
    assert("pusher:subscribe"@[7] == 's');
    assert("pusher:unsubscribe"@[7] == 'u');
    assert("pusher:ping"@[7] == 'p');
    assert("client-"@[0] == 'c');
    assert("pusher:subscribe"@[0] == 'p');
    assert("pusher:unsubscribe"@[0] == 'p');
    assert("pusher:ping"@[0] == 'p');
    assert("pusher:signin"@[0] == 'p');
}

impl NamespaceView {
    /// The namespace after a ping came in over a connection.
    pub open spec fn pinged(self, id: Seq<char>, now: u64) -> NamespaceView {
        if self.sockets.contains_key(id) {
            let conn = self.sockets[id];
            self.with_conn(
                id,
                ConnView { state: StateView { last_ping: now, ..conn.state }, ..conn },
            )
        } else {
            self
        }
    }

    /// The namespace after a connection came in; one that had its id before is taken out first. A
    /// connection to an application that does not exist is not taken in.
    pub open spec fn entered(self, id: Seq<char>, app: Option<AppView>) -> NamespaceView {
        let cleared = if self.sockets.contains_key(id) {
            self.without(set![id])
        } else {
            self
        };
        match app {
            Some(app) => cleared.with_socket(id, Some(app)),
            None => cleared,
        }
    }
}

impl ServerView {
    /// The server after a connection was taken in and told that it is established.
    pub open spec fn admitted(self, app_id: Seq<char>, id: Seq<char>) -> ServerView {
        let entered = self.space(app_id).entered(id, app_with_id(self.apps, app_id));
        self.with_space(app_id, entered).told(
            app_id,
            id,
            OutgoingView::ConnectionEstablished { socket_id: id },
        )
    }

    /// The server after a subscriber of a presence channel was told who is on it, where the other
    /// servers were told.
    pub open spec fn joined_told(
        self,
        app_id: Seq<char>,
        id: Seq<char>,
        joined: Option<(String, PresenceSummary)>,
        published: std::result::Result<(), String>,
    ) -> ServerView {
        match (joined, published) {
            (Some((channel, members)), Ok(_)) => self.told(
                app_id,
                id,
                OutgoingView::SubscriptionSucceeded {
                    channel: channel@,
                    presence: Some(members@),
                },
            ),
            _ => self,
        }
    }

    /// Whether a message that came in over HTTP was sent to a channel: `r` is what is left to
    /// publish, and `after` the server after it.
    pub open spec fn sends(
        self,
        app_id: Seq<char>,
        except: Option<Seq<char>>,
        name: Option<Seq<char>>,
        data: Option<JsonView>,
        channel: Seq<char>,
        r: Option<Publication>,
        after: ServerView,
    ) -> bool {
        let value = match data {
            Some(v) => v,
            None => JsonView::Null,
        };
        let message = channel_event(name, channel, value);
        if self.space(app_id).all_take(channel, except) {
            &&& r matches Some(todo)
            &&& todo@ == publication(self.node, app_id, channel, message, except)
            &&& after == self.after_broadcast(app_id, channel, message, except)
        } else {
            r is None && self.broadcast_failed(app_id, channel, message, except, after)
        }
    }
}

} // verus!
