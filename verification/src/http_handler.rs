//! What the server does with requests over HTTP.

use vstd::prelude::*;

use crate::adapter::local_adapter::space;
use crate::app::memory_app_manager::app_with_id;
use crate::connection::handler::{ConnectionHandler, ServerView};
use crate::connection::laws::broadcast_reaches_exactly_the_others;
use crate::connection::manager::ConnectionManager;
use crate::connection::messages::{
    all_open, api_event_carries_its_name_and_data, is_connected, is_on, outbox,
};
use crate::connection::redis_manager::Publication;
use crate::connection::session::ChannelInfo;
use crate::json::{json_text, Json, JsonView};
use crate::model::{opt_view, views, Duplicate};
use crate::namespace::{closed_off, opt_id};
use crate::protocol::{
    ApiMessageView, BatchPusherApiMessage, DataView, FrameView, MessageView, OutgoingView,
    PusherApiMessage,
};
use crate::text::{byte_len, concat, join, occurs, texts};
use crate::utils::is_cache_channel;
use crate::websocket::{SocketId, WebSocket};

verus! {

/// Why a request over HTTP fails.
#[derive(Debug)]
pub enum AppError {
    AppNotFound(String),
    AppValidationFailed(String),
    MissingChannelInfo,
    TerminationFailed(String),
    InternalError(String),
    SerializationError(String),
    HeaderBuildError(String),
}

/// Why a request fails, by its view.
#[verifier::ext_equal]
pub enum AppErrorView {
    AppNotFound(Seq<char>),
    AppValidationFailed(Seq<char>),
    MissingChannelInfo,
    TerminationFailed(Seq<char>),
    InternalError(Seq<char>),
    SerializationError(Seq<char>),
    HeaderBuildError(Seq<char>),
}

impl View for AppError {
    type V = AppErrorView;

    open spec fn view(&self) -> AppErrorView {
        match self {
            AppError::AppNotFound(m) => AppErrorView::AppNotFound(m@),
            AppError::AppValidationFailed(m) => AppErrorView::AppValidationFailed(m@),
            AppError::MissingChannelInfo => AppErrorView::MissingChannelInfo,
            AppError::TerminationFailed(m) => AppErrorView::TerminationFailed(m@),
            AppError::InternalError(m) => AppErrorView::InternalError(m@),
            AppError::SerializationError(m) => AppErrorView::SerializationError(m@),
            AppError::HeaderBuildError(m) => AppErrorView::HeaderBuildError(m@),
        }
    }
}

impl AppErrorView {
    /// The status of the response.
    pub open spec fn status(self) -> u16 {
        match self {
            AppErrorView::AppNotFound(_) => 404,
            AppErrorView::MissingChannelInfo => 400,
            _ => 500,
        }
    }

    /// What the response says.
    pub open spec fn response(self) -> Seq<char> {
        match self {
            AppErrorView::AppNotFound(m) => m,
            AppErrorView::AppValidationFailed(m) => m,
            AppErrorView::MissingChannelInfo => {
                "Request must contain 'channels' (list) or 'channel' (string)"@
            },
            AppErrorView::TerminationFailed(m) => m,
            AppErrorView::InternalError(m) => m,
            AppErrorView::SerializationError(m) => "Internal error during serialization: "@ + m,
            AppErrorView::HeaderBuildError(m) => "Internal error building response: "@ + m,
        }
    }

    /// What the log says.
    pub open spec fn log_text(self) -> Seq<char> {
        match self {
            AppErrorView::AppNotFound(m) => "Application not found: "@ + m,
            AppErrorView::AppValidationFailed(m) => "Application validation failed: "@ + m,
            AppErrorView::MissingChannelInfo => {
                "Channel validation failed: Missing 'channels' or 'channel' field"@
            },
            AppErrorView::TerminationFailed(m) => "User connection termination failed: "@ + m,
            AppErrorView::InternalError(m) => "Internal Server Error: "@ + m,
            AppErrorView::SerializationError(m) => "Serialization Error: "@ + m,
            AppErrorView::HeaderBuildError(m) => "HTTP Header Build Error: "@ + m,
        }
    }
}

impl AppError {
    /// The response to a request that fails: its status, and what it says.
    pub fn into_response(&self) -> (r: (u16, String))
        ensures
            r.0 == self@.status(),
            r.1@ == self@.response(),
    {
        match self {
            AppError::AppNotFound(m) => (404, m.clone()),
            AppError::AppValidationFailed(m) => (500, m.clone()),
            AppError::MissingChannelInfo => (
                400,
                "Request must contain 'channels' (list) or 'channel' (string)".to_string(),
            ),
            AppError::TerminationFailed(m) => (500, m.clone()),
            AppError::InternalError(m) => (500, m.clone()),
            AppError::SerializationError(m) => (
                500,
                concat("Internal error during serialization: ", m.as_str()),
            ),
            AppError::HeaderBuildError(m) => (
                500,
                concat("Internal error building response: ", m.as_str()),
            ),
        }
    }

    /// What the log says of the error.
    pub fn text(&self) -> (r: String)
        ensures
            r@ == self@.log_text(),
    {
        match self {
            AppError::AppNotFound(m) => concat("Application not found: ", m.as_str()),
            AppError::AppValidationFailed(m) => concat(
                "Application validation failed: ",
                m.as_str(),
            ),
            AppError::MissingChannelInfo => {
                "Channel validation failed: Missing 'channels' or 'channel' field".to_string()
            },
            AppError::TerminationFailed(m) => concat(
                "User connection termination failed: ",
                m.as_str(),
            ),
            AppError::InternalError(m) => concat("Internal Server Error: ", m.as_str()),
            AppError::SerializationError(m) => concat("Serialization Error: ", m.as_str()),
            AppError::HeaderBuildError(m) => concat("HTTP Header Build Error: ", m.as_str()),
        }
    }
}

/// What a signed request carries in its query.
#[derive(Debug)]
pub struct EventQuery {
    pub auth_key: String,
    pub auth_timestamp: String,
    pub auth_version: String,
    pub body_md5: String,
    pub auth_signature: String,
}

/// The memory of the machine, in bytes.
#[derive(Debug, Clone, Copy, PartialEq, Eq, Structural)]
pub struct MemoryStats {
    pub free: u64,
    pub used: u64,
    pub total: u64,
}

/// The memory of the machine, from its size and its use in kilobytes.
pub fn usage(total_kb: u64, used_kb: u64) -> (r: MemoryStats)
    requires
        total_kb * 1024 <= u64::MAX,
        used_kb * 1024 <= u64::MAX,
    ensures
        r.total == total_kb * 1024,
        r.used == used_kb * 1024,
        r.free == if total_kb >= used_kb {
            (total_kb - used_kb) * 1024
        } else {
            0
        },
{
    let total: u64 = total_kb * 1024;
    let used: u64 = used_kb * 1024;
    let free: u64 = if total >= used { total - used } else { 0 };
    MemoryStats { free, used, total }
}

/// An event as it is cached: its data and its name, as JSON.
pub open spec fn cache_payload(event_name: Seq<char>, data: JsonView) -> Seq<char> {
    JsonView::Object(
        Map::empty().insert("event"@, JsonView::Str(event_name)).insert("data"@, data),
    ).text()
}

/// An event as it is cached.
pub fn build_cache_payload(event_name: &str, event_data: &Json) -> (r: String)
    ensures
        r@ == cache_payload(event_name@, event_data@),
{
    let name = Json::string(event_name.to_string());
    Json::pair("event", name, "data", event_data.duplicate()).text()
}

/// The key under which the last event on a channel is cached.
pub open spec fn cache_key(app_id: Seq<char>, channel: Seq<char>) -> Seq<char> {
    "app:"@ + app_id + ":channel:"@ + channel + ":cache_miss"@
}

/// A text to be cached.
pub struct CacheWrite {
    pub key: String,
    pub value: String,
    pub ttl_seconds: u64,
}

/// A text to be cached, by its view.
#[verifier::ext_equal]
pub struct WriteView {
    pub key: Seq<char>,
    pub value: Seq<char>,
    pub ttl_seconds: u64,
}

impl View for CacheWrite {
    type V = WriteView;

    open spec fn view(&self) -> WriteView {
        WriteView { key: self.key@, value: self.value@, ttl_seconds: self.ttl_seconds }
    }
}

/// What is left to do of an event on one channel.
pub struct ChannelEffect {
    /// What the other servers have to be told.
    pub publication: Option<Publication>,
    /// What has to be cached.
    pub cached: Option<CacheWrite>,
}

/// What has to be cached of an event on a channel: on channels that are cached, for an hour.
pub open spec fn cache_write(
    app_id: Seq<char>,
    channel: Seq<char>,
    name: Seq<char>,
    data: JsonView,
) -> Option<WriteView> {
    if occurs(channel, "cache-"@) {
        Some(
            WriteView {
                key: cache_key(app_id, channel),
                value: cache_payload(name, data),
                ttl_seconds: 3600,
            },
        )
    } else {
        None
    }
}

/// The channels that an event is for; none where the message does not say.
pub open spec fn target_channels(message: ApiMessageView) -> Option<Seq<Seq<char>>> {
    match message.channels {
        Some(list) => if list.len() > 0 {
            Some(list)
        } else {
            None
        },
        None => match message.channel {
            Some(channel) => Some(seq![channel]),
            None => None,
        },
    }
}

/// Whether an event can be processed: it has a name, and data where a channel that is cached is
/// among its targets.
pub open spec fn can_process(message: ApiMessageView) -> bool {
    &&& message.name is Some
    &&& target_channels(message) matches Some(channels) ==> forall|i: int|
        0 <= i < channels.len() && occurs(#[trigger] channels[i], "cache-"@)
            ==> message.data is Some
}

impl ServerView {
    /// Whether `steps` lead from this server to `after` by sending an event to `channels`, one
    /// after the other, with these effects.
    pub open spec fn sends_to_all(
        self,
        app_id: Seq<char>,
        message: ApiMessageView,
        channels: Seq<Seq<char>>,
        effects: Seq<ChannelEffect>,
        steps: Seq<ServerView>,
        after: ServerView,
    ) -> bool {
        &&& effects.len() == channels.len()
        &&& steps.len() == channels.len() + 1
        &&& steps[0] == self
        &&& steps[channels.len() as int] == after
        &&& forall|i: int|
            0 <= i < channels.len() ==> (#[trigger] steps[i]).sends(
                app_id,
                message.socket_id,
                message.name,
                message.data,
                channels[i],
                effects[i].publication,
                steps[i + 1],
            )
        &&& forall|i: int|
            0 <= i < channels.len() ==> opt_view((#[trigger] effects[i]).cached) == match message.data {
                Some(data) => cache_write(app_id, channels[i], message.name->0, data),
                None => None,
            }
    }

    /// Whether an event was processed: `r` is its result, and `after` the server after it.
    pub open spec fn processes(
        self,
        app_id: Seq<char>,
        message: ApiMessageView,
        r: Result<Vec<ChannelEffect>, AppError>,
        after: ServerView,
    ) -> bool {
        match target_channels(message) {
            None => r is Err && r->Err_0@ == AppErrorView::MissingChannelInfo && after == self,
            Some(channels) => r is Ok && exists|steps: Seq<ServerView>| #[trigger]
                self.sends_to_all(app_id, message, channels, r->Ok_0@, steps, after),
        }
    }
}

/// Whether an event can be processed.
pub fn event_is_complete(message: &PusherApiMessage) -> (r: bool)
    ensures
        r == can_process(message@),
{
    if message.name.is_none() {
        return false;
    }
    if message.data.is_some() {
        return true;
    }
    match &message.channels {
        Some(list) => {
            let mut i: usize = 0;
            while i < list.len()
                invariant
                    i <= list@.len(),
                    message@.name is Some,
                    message@.data is None,
                    message@.channels == Some(texts(list@)),
                    forall|j: int|
                        0 <= j < i ==> !occurs(#[trigger] texts(list@)[j], "cache-"@),
                decreases list@.len() - i,
            {
                assert(texts(list@)[i as int] == list@[i as int]@);
                if is_cache_channel(list[i].as_str()) {
                    assert(target_channels(message@) == Some(texts(list@)));
                    assert(occurs(texts(list@)[i as int], "cache-"@));
                    return false;
                }
                i = i + 1;
            }
            true
        },
        None => match &message.channel {
            Some(channel) => {
                assert(target_channels(message@)->0[0] == channel@);
                !is_cache_channel(channel.as_str())
            },
            None => true,
        },
    }
}

/// Sends an event to every channel that it is for, in turn. What it gives back is left to do for each
/// channel, in the same order.
pub fn process_single_event(
    handler: &mut ConnectionHandler,
    app_id: &str,
    event_data: &PusherApiMessage,
) -> (r: Result<Vec<ChannelEffect>, AppError>)
    requires
        can_process(event_data@),
    ensures
        old(handler)@.processes(app_id@, event_data@, r, final(handler)@),
{
    let ghost start = handler@;
    let ghost message = event_data@;
    let socket_id = match &event_data.socket_id {
        Some(id) => Some(SocketId(id.clone())),
        None => None,
    };
    let except = match &socket_id {
        Some(id) => Some(id),
        None => None,
    };
    assert(opt_id(except) == message.socket_id);
    let channels: Vec<String> = match &event_data.channels {
        Some(list) => {
            if list.len() == 0 {
                return Err(AppError::MissingChannelInfo);
            }
            let copy = crate::model::copy_vec(list);
            assert(texts(copy@) == views(copy@));
            assert(texts(list@) == views(list@));
            copy
        },
        None => match &event_data.channel {
            Some(channel) => {
                let mut one: Vec<String> = Vec::new();
                one.push(channel.clone());
                assert(texts(one@) =~= seq![channel@]);
                one
            },
            None => return Err(AppError::MissingChannelInfo),
        },
    };
    let ghost all = texts(channels@);
    assert(target_channels(message) == Some(all));
    let mut effects: Vec<ChannelEffect> = Vec::new();
    let ghost mut steps: Seq<ServerView> = seq![start];
    let mut i: usize = 0;
    while i < channels.len()
        invariant
            i <= channels@.len(),
            all == texts(channels@),
            message == event_data@,
            message.name is Some,
            target_channels(message) == Some(all),
            can_process(message),
            opt_id(except) == message.socket_id,
            effects@.len() == i,
            steps.len() == i + 1,
            steps[0] == start,
            steps[i as int] == handler@,
            forall|j: int|
                0 <= j < i ==> (#[trigger] steps[j]).sends(
                    app_id@,
                    message.socket_id,
                    message.name,
                    message.data,
                    all[j],
                    effects@[j].publication,
                    steps[j + 1],
                ),
            forall|j: int|
                0 <= j < i ==> opt_view((#[trigger] effects@[j]).cached) == match message.data {
                    Some(data) => cache_write(app_id@, all[j], message.name->0, data),
                    None => None,
                },
        decreases channels@.len() - i,
    {
        let channel = channels[i].as_str();
        assert(all[i as int] == channel@);
        let publication = handler.send_message(app_id, except, event_data, channel);
        let mut cached: Option<CacheWrite> = None;
        if is_cache_channel(channel) {
            match (&event_data.data, &event_data.name) {
                (Some(data), Some(name)) => {
                    let value = build_cache_payload(name.as_str(), data);
                    let start_text = join("app:", app_id, ":channel:");
                    let key = join(start_text.as_str(), channel, ":cache_miss");
                    cached = Some(CacheWrite { key, value, ttl_seconds: 3600 });
                },
                _ => {},
            }
        }
        let effect = ChannelEffect { publication, cached };
        proof {
            steps = steps.push(handler@);
        }
        effects.push(effect);
        i = i + 1;
    }
    let r: Result<Vec<ChannelEffect>, AppError> = Ok(effects);
    assert(start.sends_to_all(
        app_id@,
        event_data@,
        target_channels(event_data@)->0,
        r->Ok_0@,
        steps,
        handler@,
    ));
    r
}

/// Handles an event that came in over HTTP, for an application that exists.
pub fn events(handler: &mut ConnectionHandler, app_id: &str, event: &PusherApiMessage) -> (r: Result<
    Vec<ChannelEffect>,
    AppError,
>)
    requires
        app_with_id(old(handler)@.apps, app_id@) is Some ==> can_process(event@),
    ensures
        if app_with_id(old(handler)@.apps, app_id@) is None {
            &&& r is Err
            &&& r->Err_0@ == AppErrorView::AppNotFound(app_id@)
            &&& final(handler)@ == old(handler)@
        } else {
            old(handler)@.processes(app_id@, event@, r, final(handler)@)
        },
{
    let known = handler.app_manager.find(app_id).is_some();
    if !known {
        return Err(AppError::AppNotFound(app_id.to_string()));
    }
    process_single_event(handler, app_id, event)
}

/// What became of events that came in together: what is left to do of those that were processed,
/// and the error that ended the processing, if one did.
pub struct BatchOutcome {
    pub processed: Vec<Vec<ChannelEffect>>,
    pub failure: Option<AppError>,
}

impl ServerView {
    /// Whether `steps` lead from this server to `after` by processing events, one after the other,
    /// up to the first that fails.
    pub open spec fn processes_all(
        self,
        app_id: Seq<char>,
        batch: Seq<ApiMessageView>,
        r: BatchOutcome,
        steps: Seq<ServerView>,
        after: ServerView,
    ) -> bool {
        let n = r.processed@.len();
        &&& n <= batch.len()
        &&& steps.len() == n + 1
        &&& steps[0] == self
        &&& steps[n as int] == after
        &&& forall|i: int|
            0 <= i < n ==> (#[trigger] steps[i]).processes(
                app_id,
                batch[i],
                Ok(r.processed@[i]),
                steps[i + 1],
            )
        &&& match r.failure {
            Some(e) => n < batch.len() && after.processes(app_id, batch[n as int], Err(e), after),
            None => n == batch.len(),
        }
    }
}

/// Whether the processing of a batch gets to an event: all before it say for which channels they
/// are.
pub open spec fn reached(batch: Seq<ApiMessageView>, i: int) -> bool {
    forall|j: int| 0 <= j < i ==> target_channels(#[trigger] batch[j]) is Some
}

/// Whether a batch can be processed: every event that the processing gets to can be.
pub open spec fn can_process_batch(batch: Seq<ApiMessageView>) -> bool {
    forall|i: int|
        0 <= i < batch.len() && #[trigger] reached(batch, i) ==> can_process(batch[i])
}

/// Whether a batch can be processed.
pub fn batch_is_complete(batch: &BatchPusherApiMessage) -> (r: bool)
    ensures
        r == can_process_batch(views(batch.batch@)),
{
    let ghost all = views(batch.batch@);
    let mut i: usize = 0;
    while i < batch.batch.len()
        invariant
            i <= batch.batch@.len(),
            all == views(batch.batch@),
            reached(all, i as int),
            forall|j: int| 0 <= j < i && #[trigger] reached(all, j) ==> can_process(all[j]),
        decreases batch.batch@.len() - i,
    {
        let event = &batch.batch[i];
        assert(all[i as int] == event@);
        if !event_is_complete(event) {
            return false;
        }
        let targeted = match &event.channels {
            Some(list) => list.len() > 0,
            None => event.channel.is_some(),
        };
        if !targeted {
            proof {
                assert(target_channels(all[i as int]) is None);
                assert forall|j: int| i < j < all.len() implies !#[trigger] reached(all, j) by {}
            }
            return true;
        }
        i = i + 1;
    }
    true
}

/// Handles events that came in over HTTP together, one after the other. The first that fails ends
/// the processing; what was processed before stays.
pub fn batch_events(handler: &mut ConnectionHandler, app_id: &str, batch: &BatchPusherApiMessage) -> (r:
    BatchOutcome)
    requires
        can_process_batch(views(batch.batch@)),
    ensures
        exists|steps: Seq<ServerView>| #[trigger]
            old(handler)@.processes_all(
                app_id@,
                views(batch.batch@),
                r,
                steps,
                final(handler)@,
            ),
{
    let ghost start = handler@;
    let ghost all = views(batch.batch@);
    let ghost mut steps: Seq<ServerView> = seq![start];
    let mut processed: Vec<Vec<ChannelEffect>> = Vec::new();
    let mut i: usize = 0;
    while i < batch.batch.len()
        invariant
            i <= batch.batch@.len(),
            start == old(handler)@,
            all == views(batch.batch@),
            can_process_batch(all),
            reached(all, i as int),
            processed@.len() == i,
            steps.len() == i + 1,
            steps[0] == start,
            steps[i as int] == handler@,
            forall|j: int|
                0 <= j < i ==> (#[trigger] steps[j]).processes(
                    app_id@,
                    all[j],
                    Ok(processed@[j]),
                    steps[j + 1],
                ),
        decreases batch.batch@.len() - i,
    {
        assert(all[i as int] == batch.batch@[i as int]@);
        match process_single_event(handler, app_id, &batch.batch[i]) {
            Ok(effects) => {
                proof {
                    steps = steps.push(handler@);
                }
                processed.push(effects);
            },
            Err(e) => {
                let r = BatchOutcome { processed, failure: Some(e) };
                assert(start.processes_all(app_id@, all, r, steps, handler@));
                return r;
            },
        }
        i = i + 1;
    }
    let r = BatchOutcome { processed, failure: None };
    assert(start.processes_all(app_id@, all, r, steps, handler@));
    r
}

/// Takes every connection of a user out, and gives them back with what they have still to write.
pub fn terminate_user_connections(handler: &mut ConnectionHandler, app_id: &str, user_id: &str) -> (r:
    Vec<WebSocket>)
    requires
        old(handler)@.space(app_id@).user_is_connected(user_id@),
    ensures
        final(handler)@ == old(handler)@.with_space(
            app_id@,
            old(handler)@.space(app_id@).without_user_connections(user_id@),
        ),
        closed_off(
            old(handler)@.space(app_id@),
            old(handler)@.space(app_id@).connections_of(user_id@),
            r@,
        ),
{
    handler.connection_manager.terminate_connection(app_id, user_id)
}

/// Whether a channel is occupied, and by how many, as JSON.
pub open spec fn channel_json(info: ChannelInfo) -> JsonView {
    JsonView::Object(
        Map::empty().insert("occupied"@, JsonView::Bool(info.occupied)).insert(
            "subscription_count"@,
            JsonView::Integer(info.subscription_count as int),
        ),
    )
}

/// Answers a request for a channel that `count` connections are subscribed to: the answer, and its
/// size in bytes.
pub fn channel(handler: &ConnectionHandler, count: usize) -> (r: (Json, usize))
    ensures
        r.0@ == channel_json(ChannelInfo { occupied: count > 0, subscription_count: count }),
        r.1 == byte_len(r.0@.text()),
{
    let info = handler.channel(count);
    let answer = Json::pair(
        "occupied",
        Json::boolean(info.occupied),
        "subscription_count",
        Json::number(info.subscription_count as u64),
    );
    let size: usize = answer.text().as_str().as_bytes().len();
    (answer, size)
}

/// Users of a channel as the answer to a request for them, and its size in bytes.
pub fn channel_users(users: &Json) -> (r: (Json, usize))
    ensures
        r.0@ == JsonView::Object(Map::empty().insert("users"@, users@)),
        r.1 == byte_len(r.0@.text()),
{
    let answer = Json::object("users", users.duplicate());
    let size: usize = answer.text().as_str().as_bytes().len();
    (answer, size)
}

/// What an event that came in over HTTP leaves to do on each channel that it is for: to tell the
/// other servers of the event with its name and data; and where `cache-` stands in the channel's name,
/// to cache its name and data for an hour, under a key that holds the application and the channel. The
/// effects are in the order of the channels.
pub proof fn each_channel_of_an_event_is_told_and_cached(
    server: ServerView,
    app_id: Seq<char>,
    message: ApiMessageView,
    r: Result<Vec<ChannelEffect>, AppError>,
    after: ServerView,
    channels: Seq<Seq<char>>,
    name: Seq<char>,
    data: JsonView,
    i: int,
)
    requires
        server.processes(app_id, message, r, after),
        message.channels == Some(channels) || (message.channels is None && message.channel == Some(
            channels[0],
        ) && channels.len() == 1),
        message.name == Some(name),
        message.data == Some(data),
        0 <= i < channels.len(),
    ensures
        ({
            &&& r matches Ok(effects)
            &&& effects@.len() == channels.len()
            &&& effects@[i].publication matches Some(p) ==> {
                &&& p@.node_id == server.node
                &&& p@.app_id == app_id
                &&& p@.channel == channels[i]
                &&& p@.message == OutgoingView::Message(
                    MessageView {
                        channel: Some(channels[i]),
                        name: None,
                        event: Some(name),
                        data: Some(DataView::Json(data)),
                    },
                )
                &&& message.socket_id matches Some(id) ==> p@.socket_id == id
                &&& message.socket_id is None ==> p@.socket_id.len() == 0
            }
            &&& effects@[i].cached is Some <==> exists|at: int|
                0 <= at <= channels[i].len() - 6 && #[trigger] channels[i].subrange(at, at + 6)
                    == "cache-"@
            &&& effects@[i].cached matches Some(write) ==> {
                &&& write.key@ == "app:"@ + app_id + ":channel:"@ + channels[i] + ":cache_miss"@
                &&& write.value@ == json_text(
                    JsonView::Object(
                        map!["event"@ => JsonView::Str(name), "data"@ => data],
                    ),
                )
                &&& write.ttl_seconds == 3600
            }
        }),
{
    let list = target_channels(message)->0;
    assert(list =~= channels);
    let effects = r->Ok_0@;
    let steps = choose|steps: Seq<ServerView>| #[trigger]
        server.sends_to_all(app_id, message, list, effects, steps, after);
    lemma_nodes_stay(server, app_id, message, list, effects, steps, after, i);
    assert(steps[i].sends(
        app_id,
        message.socket_id,
        message.name,
        message.data,
        channels[i],
        effects[i].publication,
        steps[i + 1],
    ));
    reveal_strlit("");
    reveal_strlit("cache-");
    assert("cache-"@.len() == 6);
    let channel = channels[i];
    if occurs(channel, "cache-"@) {
        let at = choose|at: int| #[trigger] crate::text::occurs_at(channel, "cache-"@, at);
        assert(channel.subrange(at, at + 6) == "cache-"@);
    }
    if exists|at: int|
        0 <= at <= channel.len() - 6 && #[trigger] channel.subrange(at, at + 6) == "cache-"@ {
        let at = choose|at: int|
            0 <= at <= channel.len() - 6 && #[trigger] channel.subrange(at, at + 6) == "cache-"@;
        assert(crate::text::occurs_at(channel, "cache-"@, at));
    }
    assert(opt_view(effects[i].cached) == cache_write(app_id, channel, name, data));
    assert(Map::empty().insert("event"@, JsonView::Str(name)).insert("data"@, data)
        =~= map!["event"@ => JsonView::Str(name), "data"@ => data]);
}

/// To send an event to channels does not change the server's name.
proof fn lemma_nodes_stay(
    server: ServerView,
    app_id: Seq<char>,
    message: ApiMessageView,
    channels: Seq<Seq<char>>,
    effects: Seq<ChannelEffect>,
    steps: Seq<ServerView>,
    after: ServerView,
    i: int,
)
    requires
        server.sends_to_all(app_id, message, channels, effects, steps, after),
        0 <= i <= channels.len(),
    ensures
        steps[i].node == server.node,
    decreases i,
{
    if i > 0 {
        lemma_nodes_stay(server, app_id, message, channels, effects, steps, after, i - 1);
        assert(steps[i - 1].sends(
            app_id,
            message.socket_id,
            message.name,
            message.data,
            channels[i - 1],
            effects[i - 1].publication,
            steps[i],
        ));
    }
}

/// The frames that a connection gets of an event for these channels: one for each channel that it is
/// on, in their order.
pub open spec fn frames_for(
    server: ServerView,
    app_id: Seq<char>,
    channels: Seq<Seq<char>>,
    event: Option<Seq<char>>,
    data: JsonView,
    id: Seq<char>,
) -> Seq<FrameView>
    decreases channels.len(),
{
    if channels.len() == 0 {
        Seq::empty()
    } else {
        let rest = frames_for(server, app_id, channels.drop_last(), event, data, id);
        if is_on(server, app_id, channels.last(), id) {
            rest.push(
                FrameView::Text(
                    OutgoingView::Message(
                        MessageView {
                            channel: Some(channels.last()),
                            name: None,
                            event,
                            data: Some(DataView::Json(data)),
                        },
                    ),
                ),
            )
        } else {
            rest
        }
    }
}

/// An event that came in over HTTP for several channels reaches each connection once for each of
/// these channels that it is on, in their order, but not the connection that the event excepts.
pub proof fn event_reaches_each_of_its_channels(
    server: ServerView,
    app_id: Seq<char>,
    message: ApiMessageView,
    r: Result<Vec<ChannelEffect>, AppError>,
    after: ServerView,
    channels: Seq<Seq<char>>,
    data: JsonView,
    id: Seq<char>,
)
    requires
        server.processes(app_id, message, r, after),
        message.channels == Some(channels) || (message.channels is None && message.channel == Some(
            channels[0],
        ) && channels.len() == 1),
        channels.len() > 0,
        message.data == Some(data) || (message.data is None && data == JsonView::Null),
        all_open(server, app_id),
        is_connected(server, app_id, id),
    ensures
        r is Ok,
        is_connected(after, app_id, id),
        outbox(after, app_id, id) == outbox(server, app_id, id) + if message.socket_id == Some(
            id,
        ) {
            Seq::empty()
        } else {
            frames_for(server, app_id, channels, message.name, data, id)
        },
{
    let list = target_channels(message)->0;
    assert(list =~= channels);
    let effects = r->Ok_0@;
    let steps = choose|steps: Seq<ServerView>| #[trigger]
        server.sends_to_all(app_id, message, list, effects, steps, after);
    lemma_frames(
        server,
        app_id,
        message,
        channels,
        effects,
        steps,
        after,
        data,
        id,
        channels.len() as int,
    );
    assert(channels.take(channels.len() as int) =~= channels);
}

/// What a connection has got after an event was sent to the first of its channels.
proof fn lemma_frames(
    server: ServerView,
    app_id: Seq<char>,
    message: ApiMessageView,
    channels: Seq<Seq<char>>,
    effects: Seq<ChannelEffect>,
    steps: Seq<ServerView>,
    after: ServerView,
    data: JsonView,
    id: Seq<char>,
    n: int,
)
    requires
        server.sends_to_all(app_id, message, channels, effects, steps, after),
        message.data == Some(data) || (message.data is None && data == JsonView::Null),
        all_open(server, app_id),
        is_connected(server, app_id, id),
        0 <= n <= channels.len(),
    ensures
        all_open(steps[n], app_id),
        is_connected(steps[n], app_id, id),
        forall|c: Seq<char>, x: Seq<char>| #[trigger]
            is_on(steps[n], app_id, c, x) == is_on(server, app_id, c, x),
        outbox(steps[n], app_id, id) == outbox(server, app_id, id) + if message.socket_id == Some(
            id,
        ) {
            Seq::empty()
        } else {
            frames_for(server, app_id, channels.take(n), message.name, data, id)
        },
    decreases n,
{
    if n == 0 {
        assert(channels.take(0).len() == 0);
        assert(outbox(server, app_id, id) + Seq::<FrameView>::empty() =~= outbox(
            server,
            app_id,
            id,
        ));
    } else {
        lemma_frames(
            server,
            app_id,
            message,
            channels,
            effects,
            steps,
            after,
            data,
            id,
            n - 1,
        );
        let before = steps[n - 1];
        let channel = channels[n - 1];
        assert(before.sends(
            app_id,
            message.socket_id,
            message.name,
            message.data,
            channel,
            effects[n - 1].publication,
            steps[n],
        ));
        api_event_carries_its_name_and_data(
            before,
            app_id,
            message.socket_id,
            message.name,
            message.data,
            channel,
            effects[n - 1].publication,
            steps[n],
            id,
        );
        let ns = before.space(app_id);
        let told = effects[n - 1].publication->0@.message;
        assert(ns.all_take(channel, message.socket_id));
        assert forall|x: Seq<char>|
            #![trigger steps[n].spaces[app_id].sockets[x]]
            is_connected(steps[n], app_id, x) implies steps[n].spaces[app_id].sockets[x].open by {
            assert(is_connected(before, app_id, x));
            assert(before.spaces[app_id].sockets[x].open);
            broadcast_reaches_exactly_the_others(
                ns,
                channel,
                told,
                message.socket_id,
                x,
                channel,
            );
        }
        assert forall|c: Seq<char>, x: Seq<char>| #[trigger]
            is_on(steps[n], app_id, c, x) == is_on(server, app_id, c, x) by {
            assert(is_on(before, app_id, c, x) == is_on(server, app_id, c, x));
        }
        let shown = channels.take(n);
        assert(shown.drop_last() =~= channels.take(n - 1));
        assert(shown.last() == channel);
        if message.socket_id != Some(id) && is_on(server, app_id, channel, id) {
            let rest = frames_for(server, app_id, channels.take(n - 1), message.name, data, id);
            assert((outbox(server, app_id, id) + rest).push(FrameView::Text(told)) =~= outbox(
                server,
                app_id,
                id,
            ) + rest.push(FrameView::Text(told)));
        }
    }
}

/// An event that names no channel fails, and changes nothing.
pub proof fn event_without_channels_fails(
    server: ServerView,
    app_id: Seq<char>,
    message: ApiMessageView,
    r: Result<Vec<ChannelEffect>, AppError>,
    after: ServerView,
)
    requires
        server.processes(app_id, message, r, after),
        message.channels matches Some(list) ==> list.len() == 0,
        message.channels is None ==> message.channel is None,
    ensures
        r matches Err(e) && e@ == AppErrorView::MissingChannelInfo && e@.status() == 400
            && e@.response() == "Request must contain 'channels' (list) or 'channel' (string)"@,
        after == server,
{
}

/// Of events that came in together, those before the first that names no channel are processed, and
/// none after it; where each names one, all are.
pub proof fn batch_is_processed_up_to_the_first_failure(
    server: ServerView,
    app_id: Seq<char>,
    batch: Seq<ApiMessageView>,
    r: BatchOutcome,
    steps: Seq<ServerView>,
    after: ServerView,
    i: int,
)
    requires
        server.processes_all(app_id, batch, r, steps, after),
        0 <= i <= batch.len(),
        forall|j: int|
            0 <= j < i ==> match (#[trigger] batch[j]).channels {
                Some(list) => list.len() > 0,
                None => batch[j].channel is Some,
            },
        i < batch.len() ==> match batch[i].channels {
            Some(list) => list.len() == 0,
            None => batch[i].channel is None,
        },
    ensures
        r.processed@.len() == i,
        r.failure is Some <==> i < batch.len(),
        r.failure matches Some(e) ==> e@ == AppErrorView::MissingChannelInfo,
        forall|j: int|
            0 <= j < i ==> (#[trigger] steps[j]).processes(
                app_id,
                batch[j],
                Ok(r.processed@[j]),
                steps[j + 1],
            ),
        steps[0] == server,
        steps[i] == after,
{
    let n = r.processed@.len();
    if i < n {
        assert(steps[i].processes(app_id, batch[i], Ok(r.processed@[i]), steps[i + 1]));
    }
    if n < i {
        assert(match batch[n as int].channels {
            Some(list) => list.len() > 0,
            None => batch[n as int].channel is Some,
        });
    }
}

/// The status with which a request fails: 404 where the application is not there, 400 where no
/// channel is named, and 500 else. The response says what the error says.
pub proof fn failed_request_says_why(m: Seq<char>)
    ensures
        AppErrorView::AppNotFound(m).status() == 404 && AppErrorView::AppNotFound(m).response()
            == m,
        AppErrorView::AppValidationFailed(m).status() == 500 && AppErrorView::AppValidationFailed(
            m,
        ).response() == m,
        AppErrorView::TerminationFailed(m).status() == 500 && AppErrorView::TerminationFailed(
            m,
        ).response() == m,
        AppErrorView::InternalError(m).status() == 500 && AppErrorView::InternalError(m).response()
            == m,
        AppErrorView::SerializationError(m).status() == 500 && AppErrorView::SerializationError(
            m,
        ).response() == "Internal error during serialization: "@ + m,
        AppErrorView::HeaderBuildError(m).status() == 500 && AppErrorView::HeaderBuildError(
            m,
        ).response() == "Internal error building response: "@ + m,
        AppErrorView::AppNotFound(m).log_text() == "Application not found: "@ + m,
        AppErrorView::AppValidationFailed(m).log_text() == "Application validation failed: "@ + m,
        AppErrorView::TerminationFailed(m).log_text() == "User connection termination failed: "@
            + m,
        AppErrorView::InternalError(m).log_text() == "Internal Server Error: "@ + m,
        AppErrorView::SerializationError(m).log_text() == "Serialization Error: "@ + m,
        AppErrorView::HeaderBuildError(m).log_text() == "HTTP Header Build Error: "@ + m,
{
}

/// The answer to a request for a channel holds whether it is occupied, and by how many connections,
/// and nothing else.
pub proof fn channel_is_told_with_its_count(count: usize)
    ensures
        channel_json(ChannelInfo { occupied: count > 0, subscription_count: count })
            == JsonView::Object(
            map![
                "occupied"@ => JsonView::Bool(count > 0),
                "subscription_count"@ => JsonView::Integer(count as int),
            ],
        ),
{
    assert(Map::empty().insert("occupied"@, JsonView::Bool(count > 0)).insert(
        "subscription_count"@,
        JsonView::Integer(count as int),
    ) =~= map![
        "occupied"@ => JsonView::Bool(count > 0),
        "subscription_count"@ => JsonView::Integer(count as int),
    ]);
}

/// An event can be processed where it has a name, and where it has data or none of its channels is
/// cached.
pub proof fn complete_event_can_be_processed(message: ApiMessageView, channel: Seq<char>)
    ensures
        message.name is Some && message.data is Some ==> can_process(message),
        message.name is None ==> !can_process(message),
        message.name is Some && message.channels is None && message.channel == Some(channel)
            && !occurs(channel, "cache-"@) ==> can_process(message),
        message.data is None && message.channels is None && message.channel == Some(channel)
            && occurs(channel, "cache-"@) ==> !can_process(message),
        message.data is None && (message.channels matches Some(list) && exists|i: int|
            0 <= i < list.len() && occurs(#[trigger] list[i], "cache-"@)) ==> !can_process(message),
        message.name is Some && (message.channels matches Some(list) && forall|i: int|
            0 <= i < list.len() ==> !occurs(#[trigger] list[i], "cache-"@)) ==> can_process(
            message,
        ),
{
    if message.channels is None && message.channel == Some(channel) {
        assert(target_channels(message)->0[0] == channel);
    }
}

/// Events that can each be processed can be processed together.
pub proof fn complete_events_can_be_processed_together(batch: Seq<ApiMessageView>)
    requires
        forall|i: int|
            0 <= i < batch.len() ==> (#[trigger] batch[i]).name is Some && batch[i].data is Some,
    ensures
        can_process_batch(batch),
{
    assert forall|i: int| 0 <= i < batch.len() && #[trigger] reached(batch, i) implies can_process(
        batch[i],
    ) by {
        assert(batch[i].name is Some);
    }
}

} // verus!
