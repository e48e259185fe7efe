//! The messages that clients, the HTTP interface and the server exchange.

use vstd::prelude::*;

use crate::error::{Error, ErrorView};
use crate::json::{Json, JsonView};
use crate::model::{copy_option, opt_view, Duplicate};
use crate::table::Dict;
use crate::text::{copy_opt, opt_text, texts};

verus! {

/// The data of a message.
pub enum MessageData {
    /// A string.
    String(String),
    /// An object: the fields that subscriptions and sign-ins use, and every other field in `extra`.
    Structured {
        channel_data: Option<String>,
        channel: Option<String>,
        user_data: Option<String>,
        extra: Dict<Json>,
    },
    /// Any other JSON value.
    Json(Json),
}

/// The data of a message by its view.
#[verifier::ext_equal]
pub enum DataView {
    String(Seq<char>),
    Structured {
        channel_data: Option<Seq<char>>,
        channel: Option<Seq<char>>,
        user_data: Option<Seq<char>>,
        extra: Map<Seq<char>, JsonView>,
    },
    Json(JsonView),
}

impl View for MessageData {
    type V = DataView;

    open spec fn view(&self) -> DataView {
        match self {
            MessageData::String(s) => DataView::String(s@),
            MessageData::Structured { channel_data, channel, user_data, extra } => {
                DataView::Structured {
                    channel_data: opt_text(*channel_data),
                    channel: opt_text(*channel),
                    user_data: opt_text(*user_data),
                    extra: extra@,
                }
            },
            MessageData::Json(v) => DataView::Json(v@),
        }
    }
}

impl Duplicate for MessageData {
    fn duplicate(&self) -> (r: Self) {
        match self {
            MessageData::String(s) => MessageData::String(s.clone()),
            MessageData::Structured { channel_data, channel, user_data, extra } => {
                MessageData::Structured {
                    channel_data: copy_opt(channel_data),
                    channel: copy_opt(channel),
                    user_data: copy_opt(user_data),
                    extra: extra.duplicate(),
                }
            },
            MessageData::Json(v) => MessageData::Json(v.duplicate()),
        }
    }
}

impl Clone for MessageData {
    fn clone(&self) -> (r: Self)
        ensures
            r@ == self@,
    {
        self.duplicate()
    }
}

/// The string under `field` among the extra fields of a message.
pub open spec fn extra_str(extra: Map<Seq<char>, JsonView>, field: Seq<char>) -> Option<Seq<char>> {
    if extra.contains_key(field) {
        extra[field].as_str()
    } else {
        None
    }
}

/// The string under `field` among the extra fields of a message.
pub fn get_extra_str(extra: &Dict<Json>, field: &str) -> (r: Option<String>)
    ensures
        opt_text(r) == extra_str(extra@, field@),
{
    match extra.get(field) {
        Some(v) => v.as_str(),
        None => None,
    }
}

/// A message between a client and the server.
pub struct PusherMessage {
    pub channel: Option<String>,
    pub name: Option<String>,
    pub event: Option<String>,
    pub data: Option<MessageData>,
}

/// A message by its view.
#[verifier::ext_equal]
pub struct MessageView {
    pub channel: Option<Seq<char>>,
    pub name: Option<Seq<char>>,
    pub event: Option<Seq<char>>,
    pub data: Option<DataView>,
}

impl View for PusherMessage {
    type V = MessageView;

    open spec fn view(&self) -> MessageView {
        MessageView {
            channel: opt_text(self.channel),
            name: opt_text(self.name),
            event: opt_text(self.event),
            data: opt_view(self.data),
        }
    }
}

impl Duplicate for PusherMessage {
    fn duplicate(&self) -> (r: Self) {
        PusherMessage {
            channel: copy_opt(&self.channel),
            name: copy_opt(&self.name),
            event: copy_opt(&self.event),
            data: copy_option(&self.data),
        }
    }
}

impl Clone for PusherMessage {
    fn clone(&self) -> (r: Self)
        ensures
            r@ == self@,
    {
        self.duplicate()
    }
}

/// The members of a presence channel, as a new subscriber gets them.
pub struct PresenceSummary {
    /// The ids of the users.
    pub ids: Vec<String>,
    /// What is known of each user.
    pub hash: Dict<OptionalInfo>,
    /// The number of users.
    pub count: usize,
}

/// What a member of a presence channel tells of itself, if anything.
pub struct OptionalInfo {
    pub info: Option<Json>,
}

impl View for OptionalInfo {
    type V = Option<JsonView>;

    open spec fn view(&self) -> Option<JsonView> {
        opt_view(self.info)
    }
}

impl Duplicate for OptionalInfo {
    fn duplicate(&self) -> (r: Self) {
        OptionalInfo { info: copy_option(&self.info) }
    }
}

impl Clone for OptionalInfo {
    fn clone(&self) -> (r: Self)
        ensures
            r@ == self@,
    {
        self.duplicate()
    }
}

/// The members of a presence channel by their views; the ids stand in no particular order.
#[verifier::ext_equal]
pub struct SummaryView {
    pub ids: Seq<Seq<char>>,
    pub hash: Map<Seq<char>, Option<JsonView>>,
    pub count: int,
}

impl View for PresenceSummary {
    type V = SummaryView;

    open spec fn view(&self) -> SummaryView {
        SummaryView { ids: texts(self.ids@), hash: self.hash@, count: self.count as int }
    }
}

impl Duplicate for PresenceSummary {
    fn duplicate(&self) -> (r: Self) {
        let ids = crate::model::copy_vec(&self.ids);
        assert(texts(ids@) == crate::model::views(ids@));
        assert(texts(self.ids@) == crate::model::views(self.ids@));
        PresenceSummary { ids, hash: self.hash.duplicate(), count: self.count }
    }
}

impl Clone for PresenceSummary {
    fn clone(&self) -> (r: Self)
        ensures
            r@ == self@,
    {
        self.duplicate()
    }
}

/// What the server has to tell a client.
#[allow(inconsistent_fields)]
pub enum Outgoing {
    /// A message that is sent as it stands.
    Message(PusherMessage),
    /// The first message on a connection.
    ConnectionEstablished { socket_id: String },
    /// The answer to a subscription.
    SubscriptionSucceeded { channel: String, presence: Option<PresenceSummary> },
    /// A user joined a presence channel.
    MemberAdded { channel: String, user_id: String, user_info: Option<Json> },
    /// A user left a presence channel.
    MemberRemoved { channel: String, user_id: String },
    /// An error with a code and a text.
    Error { code: u16, message: String, channel: Option<String> },
    /// An error of the server, with the code and the text that the error has.
    Failure { error: Error, channel: Option<String> },
}

/// What the server has to tell a client, by its view.
#[allow(inconsistent_fields)]
#[verifier::ext_equal]
pub enum OutgoingView {
    Message(MessageView),
    ConnectionEstablished { socket_id: Seq<char> },
    SubscriptionSucceeded { channel: Seq<char>, presence: Option<SummaryView> },
    MemberAdded { channel: Seq<char>, user_id: Seq<char>, user_info: Option<JsonView> },
    MemberRemoved { channel: Seq<char>, user_id: Seq<char> },
    Error { code: int, message: Seq<char>, channel: Option<Seq<char>> },
    Failure { error: ErrorView, channel: Option<Seq<char>> },
}

impl View for Outgoing {
    type V = OutgoingView;

    open spec fn view(&self) -> OutgoingView {
        match self {
            Outgoing::Message(m) => OutgoingView::Message(m@),
            Outgoing::ConnectionEstablished { socket_id } => {
                OutgoingView::ConnectionEstablished { socket_id: socket_id@ }
            },
            Outgoing::SubscriptionSucceeded { channel, presence } => {
                OutgoingView::SubscriptionSucceeded { channel: channel@, presence: opt_view(*presence) }
            },
            Outgoing::MemberAdded { channel, user_id, user_info } => OutgoingView::MemberAdded {
                channel: channel@,
                user_id: user_id@,
                user_info: opt_view(*user_info),
            },
            Outgoing::MemberRemoved { channel, user_id } => {
                OutgoingView::MemberRemoved { channel: channel@, user_id: user_id@ }
            },
            Outgoing::Error { code, message, channel } => OutgoingView::Error {
                code: *code as int,
                message: message@,
                channel: opt_text(*channel),
            },
            Outgoing::Failure { error, channel } => {
                OutgoingView::Failure { error: error@, channel: opt_text(*channel) }
            },
        }
    }
}

impl Duplicate for Outgoing {
    fn duplicate(&self) -> (r: Self) {
        match self {
            Outgoing::Message(m) => Outgoing::Message(m.duplicate()),
            Outgoing::ConnectionEstablished { socket_id } => {
                Outgoing::ConnectionEstablished { socket_id: socket_id.clone() }
            },
            Outgoing::SubscriptionSucceeded { channel, presence } => {
                Outgoing::SubscriptionSucceeded {
                    channel: channel.clone(),
                    presence: copy_option(presence),
                }
            },
            Outgoing::MemberAdded { channel, user_id, user_info } => Outgoing::MemberAdded {
                channel: channel.clone(),
                user_id: user_id.clone(),
                user_info: copy_option(user_info),
            },
            Outgoing::MemberRemoved { channel, user_id } => {
                Outgoing::MemberRemoved { channel: channel.clone(), user_id: user_id.clone() }
            },
            Outgoing::Error { code, message, channel } => Outgoing::Error {
                code: *code,
                message: message.clone(),
                channel: copy_opt(channel),
            },
            Outgoing::Failure { error, channel } => {
                Outgoing::Failure { error: error.duplicate(), channel: copy_opt(channel) }
            },
        }
    }
}

impl Clone for Outgoing {
    fn clone(&self) -> (r: Self)
        ensures
            r@ == self@,
    {
        self.duplicate()
    }
}

/// What is written to a socket.
pub enum Frame {
    /// A text frame.
    Text(Outgoing),
    /// A close frame with a status code.
    Close(u16),
}

/// What is written to a socket, by its view.
#[verifier::ext_equal]
pub enum FrameView {
    Text(OutgoingView),
    Close(int),
}

impl View for Frame {
    type V = FrameView;

    open spec fn view(&self) -> FrameView {
        match self {
            Frame::Text(m) => FrameView::Text(m@),
            Frame::Close(code) => FrameView::Close(*code as int),
        }
    }
}

/// A message that comes in over HTTP, for one channel or for several.
pub struct PusherApiMessage {
    pub name: Option<String>,
    pub data: Option<Json>,
    pub channels: Option<Vec<String>>,
    pub channel: Option<String>,
    pub socket_id: Option<String>,
}

/// Several messages that come in over HTTP together.
pub struct BatchPusherApiMessage {
    pub batch: Vec<PusherApiMessage>,
}

/// A message that comes in over HTTP, by its view.
#[verifier::ext_equal]
pub struct ApiMessageView {
    pub name: Option<Seq<char>>,
    pub data: Option<JsonView>,
    pub channels: Option<Seq<Seq<char>>>,
    pub channel: Option<Seq<char>>,
    pub socket_id: Option<Seq<char>>,
}

impl View for PusherApiMessage {
    type V = ApiMessageView;

    open spec fn view(&self) -> ApiMessageView {
        ApiMessageView {
            name: opt_text(self.name),
            data: opt_view(self.data),
            channels: match self.channels {
                Some(list) => Some(texts(list@)),
                None => None,
            },
            channel: opt_text(self.channel),
            socket_id: opt_text(self.socket_id),
        }
    }
}

} // verus!
