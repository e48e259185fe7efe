//! What webhooks are sent: which events become jobs, and which deliveries a job asks for.

use vstd::prelude::*;

use crate::app::config::{App, AppView};
use crate::error::{outcome, Error, ErrorView, Result};
use crate::ids::{is_uuid_v4, random_id};
use crate::json::{Json, JsonView};
use crate::model::{copy_option, opt_view, views, Duplicate};
use crate::table::Dict;
use crate::text::{ends_with, opt_str, own_opt, same, starts_with, texts};
use crate::token::{sign_text, signature};
use crate::webhook::types::{
    list_has, AppWebhook, ClientEventData, EventDataView, FilterView, JobData, JobPayload, JobView,
    LambdaConfig, LambdaView, PayloadView, Webhook, WebhookEvent, WebhookFilter, WebhookView,
};

verus! {

/// How webhooks are sent.
pub struct WebhookSenderConfig {
    pub process_id: String,
    pub debug: bool,
    pub batching_enabled: bool,
    /// In milliseconds.
    pub batching_duration: u64,
    pub can_process_queues: bool,
    /// In seconds.
    pub http_timeout: u64,
    pub max_retries: usize,
    /// In milliseconds.
    pub retry_delay: u64,
}

impl Default for WebhookSenderConfig {
    fn default() -> (r: Self)
        ensures
            is_uuid_v4(r.process_id@),
            !r.debug,
            !r.batching_enabled,
            r.batching_duration == 50,
            r.can_process_queues,
            r.http_timeout == 30,
            r.max_retries == 3,
            r.retry_delay == 1000,
    {
        WebhookSenderConfig {
            process_id: random_id(),
            debug: false,
            batching_enabled: false,
            batching_duration: 50,
            can_process_queues: true,
            http_timeout: 30,
            max_retries: 3,
            retry_delay: 1000,
        }
    }
}

/// The events that wait for a queue.
pub struct Batch {
    pub events: Vec<ClientEventData>,
}

impl View for Batch {
    type V = Seq<EventDataView>;

    open spec fn view(&self) -> Seq<EventDataView> {
        views(self.events@)
    }
}

/// Collects events and turns them into jobs.
pub struct WebhookSender {
    batch: Dict<Batch>,
    batch_leaders: Dict<bool>,
    config: WebhookSenderConfig,
}

/// The events that wait, and the queues for which somebody waits to send them.
#[verifier::ext_equal]
pub struct SenderView {
    pub batch: Map<Seq<char>, Seq<EventDataView>>,
    pub leaders: Map<Seq<char>, bool>,
}

impl View for WebhookSender {
    type V = SenderView;

    closed spec fn view(&self) -> SenderView {
        SenderView { batch: self.batch@, leaders: self.batch_leaders@ }
    }
}

impl SenderView {
    /// A sender for which nothing waits.
    pub open spec fn empty() -> SenderView {
        SenderView { batch: Map::empty(), leaders: Map::empty() }
    }

    /// The events that wait for a queue, the oldest first.
    pub open spec fn waiting(self, queue: Seq<char>) -> Seq<EventDataView> {
        if self.batch.contains_key(queue) {
            self.batch[queue]
        } else {
            Seq::empty()
        }
    }

    /// Whether somebody waits to send the events of a queue.
    pub open spec fn led(self, queue: Seq<char>) -> bool {
        self.leaders.contains_key(queue) && self.leaders[queue]
    }

    /// The sender after an event was added: somebody then waits to send it.
    pub open spec fn added(self, queue: Seq<char>, event: EventDataView) -> SenderView {
        SenderView {
            batch: self.batch.insert(queue, self.waiting(queue).push(event)),
            leaders: if self.led(queue) {
                self.leaders
            } else {
                self.leaders.insert(queue, true)
            },
        }
    }

    /// The sender after the events of a queue were taken.
    pub open spec fn flushed(self, queue: Seq<char>) -> SenderView {
        SenderView {
            batch: self.batch.remove(queue),
            leaders: self.leaders.insert(queue, false),
        }
    }
}

/// Events for a queue.
pub struct Submission {
    pub queue: String,
    pub events: Vec<ClientEventData>,
}

/// Events for a queue, by their views.
#[verifier::ext_equal]
pub struct SubmissionView {
    pub queue: Seq<char>,
    pub events: Seq<EventDataView>,
}

impl View for Submission {
    type V = SubmissionView;

    open spec fn view(&self) -> SubmissionView {
        SubmissionView { queue: self.queue@, events: views(self.events@) }
    }
}

/// An event on a channel of which no more is known.
pub open spec fn plain_event(event: WebhookEvent, channel: Seq<char>) -> EventDataView {
    EventDataView {
        name: event.name(),
        channel,
        event: None,
        data: None,
        socket_id: None,
        user_id: None,
        time_ms: None,
    }
}

/// An event of a client. Its user is told of on presence channels only.
pub open spec fn client_event(
    channel: Seq<char>,
    event: Seq<char>,
    data: JsonView,
    socket_id: Option<Seq<char>>,
    user_id: Option<Seq<char>>,
) -> EventDataView {
    EventDataView {
        event: Some(event),
        data: Some(data),
        socket_id,
        user_id: if "presence-"@.is_prefix_of(channel) {
            user_id
        } else {
            None
        },
        ..plain_event(WebhookEvent::ClientEvent, channel)
    }
}

/// An event of a user on a channel.
pub open spec fn user_event(event: WebhookEvent, channel: Seq<char>, user_id: Seq<char>) -> EventDataView {
    EventDataView { user_id: Some(user_id), ..plain_event(event, channel) }
}

/// What became of an event.
pub enum Sent {
    /// It is submitted at once.
    Queued(Submission),
    /// It waits with the other events of its queue. Whether the caller has to wait to send them
    /// all is in `leads`.
    Waiting { leads: bool },
}

/// What became of an event, by its view.
#[verifier::ext_equal]
pub enum SentView {
    Queued(SubmissionView),
    Waiting { leads: bool },
}

impl View for Sent {
    type V = SentView;

    open spec fn view(&self) -> SentView {
        match self {
            Sent::Queued(submission) => SentView::Queued(submission@),
            Sent::Waiting { leads } => SentView::Waiting { leads: *leads },
        }
    }
}

impl SenderView {
    /// What becomes of an event. Where events are batched it waits, and the first of a batch has
    /// the caller wait to send them; else it is submitted alone.
    pub open spec fn sent(self, batching: bool, event: WebhookEvent, data: EventDataView) -> SentView {
        if batching {
            SentView::Waiting { leads: !self.led(event.queue()) }
        } else {
            SentView::Queued(SubmissionView { queue: event.queue(), events: seq![data] })
        }
    }

    /// The sender after an event was sent.
    pub open spec fn after_sending(
        self,
        batching: bool,
        event: WebhookEvent,
        data: EventDataView,
    ) -> SenderView {
        if batching {
            self.added(event.queue(), data)
        } else {
            self
        }
    }

    /// What becomes of an event of an application: nothing where it has no webhook for it.
    pub open spec fn told(
        self,
        batching: bool,
        app: AppView,
        event: WebhookEvent,
        data: EventDataView,
    ) -> Option<SentView> {
        if app.wants(event) {
            Some(self.sent(batching, event, data))
        } else {
            None
        }
    }

    /// The sender after an event of an application.
    pub open spec fn after_telling(
        self,
        batching: bool,
        app: AppView,
        event: WebhookEvent,
        data: EventDataView,
    ) -> SenderView {
        if app.wants(event) {
            self.after_sending(batching, event, data)
        } else {
            self
        }
    }
}

/// The events with the time at which they were put together.
pub open spec fn stamped(events: Seq<EventDataView>, time_ms: u64) -> Seq<EventDataView> {
    events.map_values(|e: EventDataView| EventDataView { time_ms: Some(time_ms), ..e })
}

/// The payload of a job with these events; no events make none.
pub open spec fn payload_of(events: Seq<EventDataView>, time_ms: u64) -> Option<PayloadView> {
    if events.len() == 0 {
        None
    } else {
        Some(PayloadView { time_ms, events: stamped(events, time_ms) })
    }
}

impl WebhookSender {
    /// How webhooks are sent.
    pub closed spec fn settings(&self) -> WebhookSenderConfig {
        self.config
    }

    /// A sender for which nothing waits.
    pub fn new(config: WebhookSenderConfig) -> (r: Self)
        ensures
            r@ == SenderView::empty(),
            r.settings() == config,
    {
        WebhookSender { batch: Dict::new(), batch_leaders: Dict::new(), config }
    }

    /// How webhooks are sent.
    pub fn config(&self) -> (r: &WebhookSenderConfig)
        ensures
            *r == self.settings(),
    {
        &self.config
    }

    /// The queues that this process works on: all of them, where it may work on any.
    pub fn initialize_queue_processors(&self) -> (r: Vec<&'static str>)
        ensures
            r@.map_values(|s: &'static str| s@) == if self.settings().can_process_queues {
                seq![
                    WebhookEvent::ClientEvent.queue(),
                    WebhookEvent::ChannelOccupied.queue(),
                    WebhookEvent::ChannelVacated.queue(),
                    WebhookEvent::MemberAdded.queue(),
                    WebhookEvent::MemberRemoved.queue(),
                    WebhookEvent::CacheMiss.queue(),
                ]
            } else {
                Seq::empty()
            },
    {
        let mut r: Vec<&'static str> = Vec::new();
        if self.config.can_process_queues {
            r.push(WebhookEvent::ClientEvent.to_queue_name());
            r.push(WebhookEvent::ChannelOccupied.to_queue_name());
            r.push(WebhookEvent::ChannelVacated.to_queue_name());
            r.push(WebhookEvent::MemberAdded.to_queue_name());
            r.push(WebhookEvent::MemberRemoved.to_queue_name());
            r.push(WebhookEvent::CacheMiss.to_queue_name());
        }
        r
    }

    /// Sends one event to the queue of its kind: it is submitted at once, or where events are
    /// batched, waits with the others of its queue.
    pub fn send(&mut self, event: WebhookEvent, data: ClientEventData) -> (r: Sent)
        ensures
            final(self).settings() == old(self).settings(),
            r@ == old(self)@.sent(old(self).settings().batching_enabled, event, data@),
            final(self)@ == old(self)@.after_sending(
                old(self).settings().batching_enabled,
                event,
                data@,
            ),
    {
        if self.config.batching_enabled {
            let leads = self.send_webhook_by_batching(data, event.to_queue_name());
            return Sent::Waiting { leads };
        }
        let mut events: Vec<ClientEventData> = Vec::new();
        events.push(data);
        assert(views(events@) =~= seq![data@]);
        Sent::Queued(Submission { queue: event.to_queue_name().to_string(), events })
    }

    /// An event on a channel of which no more is known.
    fn plain(event: WebhookEvent, channel: &str) -> (r: ClientEventData)
        ensures
            r@ == plain_event(event, channel@),
    {
        ClientEventData {
            name: event.as_str().to_string(),
            channel: channel.to_string(),
            event: None,
            data: None,
            socket_id: None,
            user_id: None,
            time_ms: None,
        }
    }

    /// Sends an event of a client.
    pub fn send_client_event(
        &mut self,
        app: &App,
        channel: &str,
        event: &str,
        data: Json,
        socket_id: Option<&str>,
        user_id: Option<&str>,
    ) -> (r: Option<Sent>)
        ensures
            final(self).settings() == old(self).settings(),
            opt_view(r) == old(self)@.told(
                old(self).settings().batching_enabled,
                app@,
                WebhookEvent::ClientEvent,
                client_event(channel@, event@, data@, opt_str(socket_id), opt_str(user_id)),
            ),
            final(self)@ == old(self)@.after_telling(
                old(self).settings().batching_enabled,
                app@,
                WebhookEvent::ClientEvent,
                client_event(channel@, event@, data@, opt_str(socket_id), opt_str(user_id)),
            ),
    {
        if !app.has_client_event_webhooks() {
            return None;
        }
        let mut event_data = WebhookSender::plain(WebhookEvent::ClientEvent, channel);
        event_data.event = Some(event.to_string());
        event_data.data = Some(data);
        event_data.socket_id = own_opt(socket_id);
        if starts_with(channel, "presence-") {
            event_data.user_id = own_opt(user_id);
        }
        Some(self.send(WebhookEvent::ClientEvent, event_data))
    }

    /// Sends that a channel got its first subscriber.
    pub fn send_channel_occupied(&mut self, app: &App, channel: &str) -> (r: Option<Sent>)
        ensures
            final(self).settings() == old(self).settings(),
            opt_view(r) == old(self)@.told(
                old(self).settings().batching_enabled,
                app@,
                WebhookEvent::ChannelOccupied,
                plain_event(WebhookEvent::ChannelOccupied, channel@),
            ),
            final(self)@ == old(self)@.after_telling(
                old(self).settings().batching_enabled,
                app@,
                WebhookEvent::ChannelOccupied,
                plain_event(WebhookEvent::ChannelOccupied, channel@),
            ),
    {
        if !app.has_channel_occupied_webhooks() {
            return None;
        }
        let event_data = WebhookSender::plain(WebhookEvent::ChannelOccupied, channel);
        Some(self.send(WebhookEvent::ChannelOccupied, event_data))
    }

    /// Sends that a channel lost its last subscriber.
    pub fn send_channel_vacated(&mut self, app: &App, channel: &str) -> (r: Option<Sent>)
        ensures
            final(self).settings() == old(self).settings(),
            opt_view(r) == old(self)@.told(
                old(self).settings().batching_enabled,
                app@,
                WebhookEvent::ChannelVacated,
                plain_event(WebhookEvent::ChannelVacated, channel@),
            ),
            final(self)@ == old(self)@.after_telling(
                old(self).settings().batching_enabled,
                app@,
                WebhookEvent::ChannelVacated,
                plain_event(WebhookEvent::ChannelVacated, channel@),
            ),
    {
        if !app.has_channel_vacated_webhooks() {
            return None;
        }
        let event_data = WebhookSender::plain(WebhookEvent::ChannelVacated, channel);
        Some(self.send(WebhookEvent::ChannelVacated, event_data))
    }

    /// Sends that a user joined a presence channel.
    pub fn send_member_added(&mut self, app: &App, channel: &str, user_id: &str) -> (r: Option<Sent>)
        ensures
            final(self).settings() == old(self).settings(),
            opt_view(r) == old(self)@.told(
                old(self).settings().batching_enabled,
                app@,
                WebhookEvent::MemberAdded,
                user_event(WebhookEvent::MemberAdded, channel@, user_id@),
            ),
            final(self)@ == old(self)@.after_telling(
                old(self).settings().batching_enabled,
                app@,
                WebhookEvent::MemberAdded,
                user_event(WebhookEvent::MemberAdded, channel@, user_id@),
            ),
    {
        if !app.has_member_added_webhooks() {
            return None;
        }
        let mut event_data = WebhookSender::plain(WebhookEvent::MemberAdded, channel);
        event_data.user_id = Some(user_id.to_string());
        Some(self.send(WebhookEvent::MemberAdded, event_data))
    }

    /// Sends that a user left a presence channel.
    pub fn send_member_removed(&mut self, app: &App, channel: &str, user_id: &str) -> (r: Option<Sent>)
        ensures
            final(self).settings() == old(self).settings(),
            opt_view(r) == old(self)@.told(
                old(self).settings().batching_enabled,
                app@,
                WebhookEvent::MemberRemoved,
                user_event(WebhookEvent::MemberRemoved, channel@, user_id@),
            ),
            final(self)@ == old(self)@.after_telling(
                old(self).settings().batching_enabled,
                app@,
                WebhookEvent::MemberRemoved,
                user_event(WebhookEvent::MemberRemoved, channel@, user_id@),
            ),
    {
        if !app.has_member_removed_webhooks() {
            return None;
        }
        let mut event_data = WebhookSender::plain(WebhookEvent::MemberRemoved, channel);
        event_data.user_id = Some(user_id.to_string());
        Some(self.send(WebhookEvent::MemberRemoved, event_data))
    }

    /// Sends that a cache channel has no cached event.
    pub fn send_cache_missed(&mut self, app: &App, channel: &str) -> (r: Option<Sent>)
        ensures
            final(self).settings() == old(self).settings(),
            opt_view(r) == old(self)@.told(
                old(self).settings().batching_enabled,
                app@,
                WebhookEvent::CacheMiss,
                plain_event(WebhookEvent::CacheMiss, channel@),
            ),
            final(self)@ == old(self)@.after_telling(
                old(self).settings().batching_enabled,
                app@,
                WebhookEvent::CacheMiss,
                plain_event(WebhookEvent::CacheMiss, channel@),
            ),
    {
        if !app.has_cache_missed_webhooks() {
            return None;
        }
        let event_data = WebhookSender::plain(WebhookEvent::CacheMiss, channel);
        Some(self.send(WebhookEvent::CacheMiss, event_data))
    }

    /// Puts events together at `time_ms`; no events make no payload.
    pub fn send_webhook(&self, events: Vec<ClientEventData>, time_ms: u64) -> (r: Option<JobPayload>)
        ensures
            opt_view(r) == payload_of(views(events@), time_ms),
    {
        assert(views(events@).len() == events@.len());
        if events.len() == 0 {
            return None;
        }
        let mut out: Vec<ClientEventData> = Vec::new();
        let mut i: usize = 0;
        while i < events.len()
            invariant
                i <= events@.len(),
                views(out@) == stamped(views(events@), time_ms).take(i as int),
            decreases events@.len() - i,
        {
            let ghost before = out@;
            let mut event = events[i].duplicate();
            event.time_ms = Some(time_ms);
            proof {
                let all = stamped(views(events@), time_ms);
                assert(event@ == all[i as int]);
                assert(all.take(i + 1) =~= all.take(i as int).push(all[i as int]));
            }
            out.push(event);
            assert(views(out@) =~= views(before).push(event@));
            i = i + 1;
        }
        proof {
            let all = stamped(views(events@), time_ms);
            assert(all.take(i as int) =~= all);
        }
        Some(JobPayload { time_ms, events: out })
    }

    /// The job for a payload, whose JSON text is `payload_json`: it carries the text's signature
    /// under the application's secret.
    pub fn seal(&self, app: &App, payload: JobPayload, payload_json: &str) -> (r: JobData)
        ensures
            r@ == (JobView {
                app_key: app@.key,
                app_id: app@.id,
                payload: payload@,
                original_signature: signature(app@.secret, payload_json@),
            }),
    {
        JobData {
            app_key: app.key.clone(),
            app_id: app.id.clone(),
            payload,
            original_signature: create_webhook_hmac(payload_json, app.secret.as_str()),
        }
    }

    /// Adds an event to those that wait for a queue, and says whether the caller has to wait to send
    /// them: that is where nobody does yet.
    pub fn send_webhook_by_batching(&mut self, data: ClientEventData, queue_name: &str) -> (r: bool)
        ensures
            final(self)@ == old(self)@.added(queue_name@, data@),
            final(self).settings() == old(self).settings(),
            r == !old(self)@.led(queue_name@),
    {
        let mut events = match self.batch.remove(queue_name) {
            Some(batch) => batch.events,
            None => Vec::new(),
        };
        let ghost before = views(events@);
        assert(before =~= old(self)@.waiting(queue_name@));
        events.push(data);
        assert(views(events@) =~= before.push(data@));
        self.batch.insert(queue_name.to_string(), Batch { events });
        assert(self.batch@ =~= old(self)@.added(queue_name@, data@).batch);
        let led = match self.batch_leaders.get(queue_name) {
            Some(led) => *led,
            None => false,
        };
        if !led {
            self.batch_leaders.insert(queue_name.to_string(), true);
        }
        !led
    }

    /// Takes the events that wait for a queue, the oldest first. Nobody waits to send them then.
    pub fn flush_batch(&mut self, queue_name: &str) -> (r: Vec<ClientEventData>)
        ensures
            views(r@) == old(self)@.waiting(queue_name@),
            final(self)@ == old(self)@.flushed(queue_name@),
            final(self).settings() == old(self).settings(),
    {
        let events = match self.batch.remove(queue_name) {
            Some(batch) => batch.events,
            None => Vec::new(),
        };
        assert(views(events@) =~= old(self)@.waiting(queue_name@));
        self.batch_leaders.insert(queue_name.to_string(), false);
        events
    }
}

/// The signature of a text under a secret.
pub fn create_webhook_hmac(data: &str, secret: &str) -> (r: String)
    ensures
        r@ == signature(secret@, data@),
{
    sign_text(secret, data)
}

/// Where a webhook is delivered.
pub enum Delivery {
    /// By an HTTP request.
    Http { url: String, headers: Dict<String> },
    /// By a Lambda function.
    Lambda { function: String, config: Option<LambdaConfig> },
}

/// Where a webhook is delivered, by its view.
#[verifier::ext_equal]
pub enum DeliveryView {
    Http { url: Seq<char>, headers: Map<Seq<char>, Seq<char>> },
    Lambda { function: Seq<char>, config: Option<LambdaView> },
}

impl View for Delivery {
    type V = DeliveryView;

    open spec fn view(&self) -> DeliveryView {
        match self {
            Delivery::Http { url, headers } => DeliveryView::Http { url: url@, headers: headers@ },
            Delivery::Lambda { function, config } => DeliveryView::Lambda {
                function: function@,
                config: opt_view(*config),
            },
        }
    }
}

impl FilterView {
    /// Whether a channel passes: its name starts and ends as the filter asks.
    pub open spec fn passes(self, channel: Seq<char>) -> bool {
        &&& self.channel_name_starts_with matches Some(prefix) ==> prefix.is_prefix_of(channel)
        &&& self.channel_name_ends_with matches Some(suffix) ==> suffix.is_suffix_of(channel)
    }
}

/// The event that decides which webhooks a job is for: the first.
pub open spec fn representative(events: Seq<EventDataView>) -> Seq<char> {
    if events.len() > 0 {
        events[0].name
    } else {
        ""@
    }
}

impl WebhookView {
    /// Whether a job with these events is for the webhook: it is for the kind of the first, and the
    /// channels of all of them pass its filter.
    pub open spec fn applies(self, events: Seq<EventDataView>) -> bool {
        &&& self.event_types.contains(representative(events))
        &&& self.filter matches Some(filter) ==> forall|i: int|
            0 <= i < events.len() ==> filter.passes((#[trigger] events[i]).channel)
    }

    /// Where the webhook is delivered: to its URL, or else by its Lambda function.
    pub open spec fn destination(self) -> Option<DeliveryView> {
        match (self.url, self.lambda_function) {
            (Some(url), _) => Some(
                DeliveryView::Http {
                    url,
                    headers: match self.headers {
                        Some(headers) => headers,
                        None => Map::empty(),
                    },
                },
            ),
            (None, Some(function)) => Some(DeliveryView::Lambda { function, config: self.lambda }),
            (None, None) => None,
        }
    }

    /// Where the webhook is delivered for a job with these events.
    pub open spec fn delivery(self, events: Seq<EventDataView>) -> Option<DeliveryView> {
        if self.applies(events) {
            self.destination()
        } else {
            None
        }
    }
}

/// Where a job with these events is delivered, in the order of the webhooks.
pub open spec fn deliveries(webhooks: Seq<WebhookView>, events: Seq<EventDataView>) -> Seq<
    DeliveryView,
>
    decreases webhooks.len(),
{
    if webhooks.len() == 0 {
        Seq::empty()
    } else {
        let rest = deliveries(webhooks.drop_last(), events);
        match webhooks.last().delivery(events) {
            Some(d) => rest.push(d),
            None => rest,
        }
    }
}

/// Whether the channels of all events pass a filter.
fn all_pass(filter: &WebhookFilter, events: &Vec<ClientEventData>) -> (r: bool)
    ensures
        r == forall|i: int|
            0 <= i < views(events@).len() ==> filter@.passes(
                (#[trigger] views(events@)[i]).channel,
            ),
{
    let mut i: usize = 0;
    while i < events.len()
        invariant
            i <= events@.len(),
            forall|j: int|
                0 <= j < i ==> filter@.passes((#[trigger] views(events@)[j]).channel),
        decreases events@.len() - i,
    {
        let channel = events[i].channel.as_str();
        let starts = match &filter.channel_name_starts_with {
            Some(prefix) => starts_with(channel, prefix.as_str()),
            None => true,
        };
        let ends = match &filter.channel_name_ends_with {
            Some(suffix) => ends_with(channel, suffix.as_str()),
            None => true,
        };
        assert(views(events@)[i as int].channel == channel@);
        if !(starts && ends) {
            return false;
        }
        i = i + 1;
    }
    true
}

/// Where a job with these events is delivered by one webhook.
fn delivery_of(webhook: &Webhook, events: &Vec<ClientEventData>) -> (r: Option<Delivery>)
    ensures
        opt_view(r) == webhook@.delivery(views(events@)),
{
    let applies = if events.len() > 0 {
        assert(views(events@)[0] == events@[0]@);
        list_has(&webhook.event_types, events[0].name.as_str())
    } else {
        list_has(&webhook.event_types, "")
    };
    if !applies {
        return None;
    }
    match &webhook.filter {
        Some(filter) => if !all_pass(filter, events) {
            return None;
        },
        None => {},
    }
    match (&webhook.url, &webhook.lambda_function) {
        (Some(url), _) => {
            let headers = match &webhook.headers {
                Some(headers) => headers.duplicate(),
                None => Dict::new(),
            };
            Some(Delivery::Http { url: url.clone(), headers })
        },
        (None, Some(function)) => Some(
            Delivery::Lambda { function: function.clone(), config: copy_option(&webhook.lambda) },
        ),
        (None, None) => None,
    }
}

/// Where a job with these events is delivered, in the order of the webhooks.
pub fn plan_deliveries(webhooks: &[Webhook], events: &Vec<ClientEventData>) -> (r: Vec<Delivery>)
    ensures
        views(r@) == deliveries(views(webhooks@), views(events@)),
{
    let mut r: Vec<Delivery> = Vec::new();
    let mut i: usize = 0;
    let count: usize = webhooks.len();
    proof {
        assert(views(webhooks@).take(0) =~= Seq::<WebhookView>::empty());
        assert(views(r@) =~= Seq::<DeliveryView>::empty());
    }
    while i < count
        invariant
            i <= count,
            count == webhooks@.len(),
            views(r@) == deliveries(views(webhooks@).take(i as int), views(events@)),
        decreases count - i,
    {
        let ghost before = r@;
        proof {
            let next = views(webhooks@).take(i + 1);
            assert(next.drop_last() =~= views(webhooks@).take(i as int));
            assert(next.last() == webhooks@[i as int]@);
        }
        match delivery_of(&webhooks[i], events) {
            Some(d) => {
                r.push(d);
                assert(views(r@) =~= views(before).push(d@));
            },
            None => {},
        }
        i = i + 1;
    }
    assert(views(webhooks@).take(i as int) =~= views(webhooks@));
    r
}

/// The application that a job is processed for: jobs are told of on this machine, for events of
/// clients and of users that join and leave.
pub open spec fn job_app(app_id: Seq<char>, app_key: Seq<char>) -> AppView {
    AppView {
        id: app_id,
        key: app_key,
        secret: "demo-secret"@,
        webhooks: Some(
            seq![
                WebhookView {
                    url: Some("http://localhost:3000/webhook"@),
                    lambda_function: None,
                    lambda: None,
                    event_types: seq![
                        WebhookEvent::ClientEvent.name(),
                        WebhookEvent::MemberAdded.name(),
                        WebhookEvent::MemberRemoved.name(),
                    ],
                    filter: None,
                    headers: Some(Map::empty()),
                },
            ],
        ),
        enable_client_messages: true,
        enabled: true,
        max_connections: 1000,
        max_client_events_per_second: 100,
        ..AppView::blank()
    }
}

/// The application that a job is processed for.
fn app_of_job(app_id: &str, app_key: &str) -> (r: App)
    ensures
        r@ == job_app(app_id@, app_key@),
{
    let mut event_types: Vec<String> = Vec::new();
    event_types.push(WebhookEvent::ClientEvent.as_str().to_string());
    event_types.push(WebhookEvent::MemberAdded.as_str().to_string());
    event_types.push(WebhookEvent::MemberRemoved.as_str().to_string());
    assert(texts(event_types@) =~= seq![
        WebhookEvent::ClientEvent.name(),
        WebhookEvent::MemberAdded.name(),
        WebhookEvent::MemberRemoved.name(),
    ]);
    let webhook = Webhook {
        url: Some("http://localhost:3000/webhook".to_string()),
        lambda_function: None,
        lambda: None,
        event_types,
        filter: None,
        headers: Some(Dict::new()),
    };
    let mut webhooks: Vec<Webhook> = Vec::new();
    webhooks.push(webhook);
    assert(views(webhooks@) =~= seq![webhook@]);
    let mut app = App::default();
    app.id = app_id.to_string();
    app.key = app_key.to_string();
    app.secret = "demo-secret".to_string();
    app.webhooks = Some(webhooks);
    app.enable_client_messages = true;
    app.enabled = true;
    app.max_connections = 1000;
    app.max_client_events_per_second = 100;
    app
}

/// Where a job is delivered.
pub fn process_job(job: &JobData) -> (r: Vec<Delivery>)
    ensures
        views(r@) == deliveries(
            job_app(job@.app_id, job@.app_key).webhook_list(),
            job@.payload.events,
        ),
{
    let app = app_of_job(job.app_id.as_str(), job.app_key.as_str());
    plan_deliveries(app.get_webhooks(), &job.payload.events)
}

/// Whether the signature of a job is that of its payload, whose JSON text is `payload_json`, under
/// the secret of the application that the job is processed for.
pub fn signature_matches(job: &JobData, payload_json: &str) -> (r: bool)
    ensures
        r == (job@.original_signature == signature(
            job_app(job@.app_id, job@.app_key).secret,
            payload_json@,
        )),
{
    let app = app_of_job(job.app_id.as_str(), job.app_key.as_str());
    let expected = create_webhook_hmac(payload_json, app.secret.as_str());
    same(job.original_signature.as_str(), expected.as_str())
}

/// What a job gives whose deliveries succeeded or failed as `delivered` says: it fails where one of
/// them did.
pub fn job_outcome(delivered: &Vec<bool>) -> (r: Result<()>)
    ensures
        outcome(r) == if forall|i: int| 0 <= i < delivered@.len() ==> #[trigger] delivered@[i] {
            Ok(())
        } else {
            Err(ErrorView::Other("One or more webhook sends failed"@))
        },
{
    let mut i: usize = 0;
    while i < delivered.len()
        invariant
            i <= delivered@.len(),
            forall|j: int| 0 <= j < i ==> #[trigger] delivered@[j],
        decreases delivered@.len() - i,
    {
        if !delivered[i] {
            assert(!delivered@[i as int]);
            return Err(Error::Other("One or more webhook sends failed".to_string()));
        }
        i = i + 1;
    }
    Ok(())
}

/// The region in which a Lambda function is called.
pub fn lambda_region(config: &Option<LambdaConfig>) -> (r: String)
    ensures
        r@ == match opt_view(*config) {
            Some(LambdaView { region: Some(region), .. }) => region,
            _ => "us-east-1"@,
        },
{
    match config {
        Some(config) => match &config.region {
            Some(region) => region.clone(),
            None => "us-east-1".to_string(),
        },
        None => "us-east-1".to_string(),
    }
}

/// Each event that was added to a queue is taken once, in the order in which the events were added:
/// what is taken is what waited and what was added since, and nothing waits afterwards.
pub proof fn batched_events_are_taken_once_in_order(
    sender: SenderView,
    queue: Seq<char>,
    events: Seq<EventDataView>,
)
    ensures
        added_all(sender, queue, events).waiting(queue) == sender.waiting(queue) + events,
        added_all(sender, queue, events).flushed(queue).waiting(queue) == Seq::<
            EventDataView,
        >::empty(),
    decreases events.len(),
{
    if events.len() > 0 {
        batched_events_are_taken_once_in_order(sender, queue, events.drop_last());
        assert(sender.waiting(queue) + events =~= (sender.waiting(queue)
            + events.drop_last()).push(events.last()));
    } else {
        assert(sender.waiting(queue) + events =~= sender.waiting(queue));
    }
}

/// The sender after several events were added to a queue.
pub open spec fn added_all(
    sender: SenderView,
    queue: Seq<char>,
    events: Seq<EventDataView>,
) -> SenderView
    decreases events.len(),
{
    if events.len() == 0 {
        sender
    } else {
        added_all(sender, queue, events.drop_last()).added(queue, events.last())
    }
}

/// Of those that add events to a queue, only the first has to wait to send them, until they are
/// taken; then the next has to. Other queues are not concerned.
pub proof fn one_waits_for_a_batch(
    sender: SenderView,
    queue: Seq<char>,
    event: EventDataView,
    other: Seq<char>,
)
    ensures
        sender.added(queue, event).led(queue),
        !sender.flushed(queue).led(queue),
        other != queue ==> sender.added(queue, event).led(other) == sender.led(other),
        other != queue ==> sender.flushed(queue).led(other) == sender.led(other),
        other != queue ==> sender.added(queue, event).waiting(other) == sender.waiting(other),
        other != queue ==> sender.flushed(queue).waiting(other) == sender.waiting(other),
{
}

/// The sender after several events of one kind were sent.
pub open spec fn after_sending_all(
    sender: SenderView,
    batching: bool,
    event: WebhookEvent,
    events: Seq<EventDataView>,
) -> SenderView
    decreases events.len(),
{
    if events.len() == 0 {
        sender
    } else {
        after_sending_all(sender, batching, event, events.drop_last()).after_sending(
            batching,
            event,
            events.last(),
        )
    }
}

/// Events of one kind that are sent within one window, where events are batched, are taken together
/// when it ends, in the order in which they were sent, and make one job. Only the first of them has
/// its caller wait for the end of the window, and the next window begins with nothing.
pub proof fn batched_events_make_one_job(
    sender: SenderView,
    event: WebhookEvent,
    events: Seq<EventDataView>,
    i: int,
    time_ms: u64,
)
    requires
        sender.waiting(event.queue()) == Seq::<EventDataView>::empty(),
        !sender.led(event.queue()),
        0 <= i < events.len(),
    ensures
        after_sending_all(sender, true, event, events.take(i)).sent(true, event, events[i])
            == (SentView::Waiting { leads: i == 0 }),
        after_sending_all(sender, true, event, events).waiting(event.queue()) == events,
        payload_of(
            after_sending_all(sender, true, event, events).waiting(event.queue()),
            time_ms,
        ) == Some(PayloadView { time_ms, events: stamped(events, time_ms) }),
        ({
            let next = after_sending_all(sender, true, event, events).flushed(event.queue());
            &&& next.waiting(event.queue()) == Seq::<EventDataView>::empty()
            &&& !next.led(event.queue())
        }),
{
    lemma_sent_in_batch(sender, event, events);
    lemma_sent_in_batch(sender, event, events.take(i));
}

/// Events that are sent where events are batched wait in the order in which they were sent, and
/// somebody waits to send them.
proof fn lemma_sent_in_batch(sender: SenderView, event: WebhookEvent, events: Seq<EventDataView>)
    requires
        sender.waiting(event.queue()) == Seq::<EventDataView>::empty(),
        !sender.led(event.queue()),
    ensures
        after_sending_all(sender, true, event, events).waiting(event.queue()) == events,
        after_sending_all(sender, true, event, events).led(event.queue()) == (events.len() > 0),
    decreases events.len(),
{
    if events.len() > 0 {
        lemma_sent_in_batch(sender, event, events.drop_last());
        assert(events =~= events.drop_last().push(events.last()));
    } else {
        assert(events =~= Seq::<EventDataView>::empty());
    }
}

/// Where events are not batched, each makes a job of its own at once, and nothing waits for it.
pub proof fn unbatched_events_are_sent_alone(
    sender: SenderView,
    event: WebhookEvent,
    events: Seq<EventDataView>,
    i: int,
    time_ms: u64,
)
    requires
        0 <= i < events.len(),
    ensures
        after_sending_all(sender, false, event, events.take(i)).sent(false, event, events[i])
            == SentView::Queued(SubmissionView { queue: event.queue(), events: seq![events[i]] }),
        payload_of(seq![events[i]], time_ms) == Some(
            PayloadView { time_ms, events: stamped(seq![events[i]], time_ms) },
        ),
        after_sending_all(sender, false, event, events) == sender,
{
    lemma_sent_alone(sender, event, events);
    lemma_sent_alone(sender, event, events.take(i));
}

/// Events that are not batched change nothing that waits.
proof fn lemma_sent_alone(sender: SenderView, event: WebhookEvent, events: Seq<EventDataView>)
    ensures
        after_sending_all(sender, false, event, events) == sender,
    decreases events.len(),
{
    if events.len() > 0 {
        lemma_sent_alone(sender, event, events.drop_last());
    }
}

/// A webhook with a filter is not told of a job that has an event on a channel which does not pass.
pub proof fn filtered_webhook_is_not_told(
    webhook: WebhookView,
    filter: FilterView,
    events: Seq<EventDataView>,
    i: int,
)
    requires
        webhook.filter == Some(filter),
        0 <= i < events.len(),
        !filter.passes(events[i].channel),
    ensures
        webhook.delivery(events) == None::<DeliveryView>,
{
}

/// What an event of a client is told as: with its channel, its name, its data and the connection as
/// they are given, and the user on presence channels only. Where events are not batched it is
/// submitted alone; where they are, it waits behind the others of its queue.
pub proof fn client_event_is_told_in_full(
    sender: SenderView,
    app: AppView,
    channel: Seq<char>,
    event: Seq<char>,
    data: JsonView,
    socket_id: Option<Seq<char>>,
    user_id: Option<Seq<char>>,
)
    requires
        app.wants(WebhookEvent::ClientEvent),
    ensures
        ({
            let told = EventDataView {
                name: "client_event"@,
                channel,
                event: Some(event),
                data: Some(data),
                socket_id,
                user_id: if "presence-"@.is_prefix_of(channel) {
                    user_id
                } else {
                    None
                },
                time_ms: None,
            };
            let given = client_event(channel, event, data, socket_id, user_id);
            told_as(sender, app, WebhookEvent::ClientEvent, given, told, "client_event_webhooks"@)
        }),
{
    lemma_told_as(
        sender,
        app,
        WebhookEvent::ClientEvent,
        client_event(channel, event, data, socket_id, user_id),
    );
}

/// Whether an event that is given to the sender is told as `told` on this queue: alone, where events
/// are not batched, and else behind those that wait for the queue, and nothing else waits then.
pub open spec fn told_as(
    sender: SenderView,
    app: AppView,
    event: WebhookEvent,
    given: EventDataView,
    told: EventDataView,
    queue: Seq<char>,
) -> bool {
    let after = sender.after_telling(true, app, event, given);
    &&& sender.told(false, app, event, given) == Some(
        SentView::Queued(SubmissionView { queue, events: seq![told] }),
    )
    &&& sender.after_telling(false, app, event, given) == sender
    &&& sender.told(true, app, event, given) == Some(
        SentView::Waiting {
            leads: !(sender.leaders.contains_key(queue) && sender.leaders[queue]),
        },
    )
    &&& after.batch == sender.batch.insert(
        queue,
        if sender.batch.contains_key(queue) {
            sender.batch[queue].push(told)
        } else {
            seq![told]
        },
    )
    &&& after.leaders.contains_key(queue) && after.leaders[queue]
    &&& forall|other: Seq<char>|
        other != queue && #[trigger] after.leaders.contains_key(other)
            ==> sender.leaders.contains_key(other) && after.leaders[other]
            == sender.leaders[other]
}

/// An event that is given to the sender is told as it is, on the queue of its kind.
proof fn lemma_told_as(sender: SenderView, app: AppView, event: WebhookEvent, data: EventDataView)
    requires
        app.wants(event),
    ensures
        told_as(sender, app, event, data, data, event.queue()),
{
    let queue = event.queue();
    if !sender.batch.contains_key(queue) {
        assert(sender.waiting(queue).push(data) =~= seq![data]);
    }
}

/// What the other events are told as: that a channel got its first subscriber or lost its last one,
/// that a user joined or left it, and that nothing is cached for it. Each holds its kind and its
/// channel, those of users the user, and nothing else.
pub proof fn other_events_are_told_in_full(
    sender: SenderView,
    app: AppView,
    channel: Seq<char>,
    user_id: Seq<char>,
)
    ensures
        app.wants(WebhookEvent::ChannelOccupied) ==> told_as(
            sender,
            app,
            WebhookEvent::ChannelOccupied,
            plain_event(WebhookEvent::ChannelOccupied, channel),
            EventDataView {
                name: "channel_occupied"@,
                channel,
                event: None,
                data: None,
                socket_id: None,
                user_id: None,
                time_ms: None,
            },
            "channel_occupied_webhooks"@,
        ),
        app.wants(WebhookEvent::ChannelVacated) ==> told_as(
            sender,
            app,
            WebhookEvent::ChannelVacated,
            plain_event(WebhookEvent::ChannelVacated, channel),
            EventDataView {
                name: "channel_vacated"@,
                channel,
                event: None,
                data: None,
                socket_id: None,
                user_id: None,
                time_ms: None,
            },
            "channel_vacated_webhooks"@,
        ),
        app.wants(WebhookEvent::MemberAdded) ==> told_as(
            sender,
            app,
            WebhookEvent::MemberAdded,
            user_event(WebhookEvent::MemberAdded, channel, user_id),
            EventDataView {
                name: "member_added"@,
                channel,
                event: None,
                data: None,
                socket_id: None,
                user_id: Some(user_id),
                time_ms: None,
            },
            "member_added_webhooks"@,
        ),
        app.wants(WebhookEvent::MemberRemoved) ==> told_as(
            sender,
            app,
            WebhookEvent::MemberRemoved,
            user_event(WebhookEvent::MemberRemoved, channel, user_id),
            EventDataView {
                name: "member_removed"@,
                channel,
                event: None,
                data: None,
                socket_id: None,
                user_id: Some(user_id),
                time_ms: None,
            },
            "member_removed_webhooks"@,
        ),
        app.wants(WebhookEvent::CacheMiss) ==> told_as(
            sender,
            app,
            WebhookEvent::CacheMiss,
            plain_event(WebhookEvent::CacheMiss, channel),
            EventDataView {
                name: "cache_miss"@,
                channel,
                event: None,
                data: None,
                socket_id: None,
                user_id: None,
                time_ms: None,
            },
            "cache_miss_webhooks"@,
        ),
{
    let occupied = WebhookEvent::ChannelOccupied;
    let vacated = WebhookEvent::ChannelVacated;
    let missed = WebhookEvent::CacheMiss;
    let added = WebhookEvent::MemberAdded;
    let removed = WebhookEvent::MemberRemoved;
    if app.wants(occupied) {
        lemma_told_as(sender, app, occupied, plain_event(occupied, channel));
    }
    if app.wants(vacated) {
        lemma_told_as(sender, app, vacated, plain_event(vacated, channel));
    }
    if app.wants(missed) {
        lemma_told_as(sender, app, missed, plain_event(missed, channel));
    }
    if app.wants(added) {
        lemma_told_as(sender, app, added, user_event(added, channel, user_id));
    }
    if app.wants(removed) {
        lemma_told_as(sender, app, removed, user_event(removed, channel, user_id));
    }
}

/// An application is told of an event where one of its webhooks lists the event's kind, and of no
/// other: then nothing is submitted, and nothing waits.
pub proof fn application_is_told_of_what_its_webhooks_list(
    sender: SenderView,
    batching: bool,
    app: AppView,
    event: WebhookEvent,
    data: EventDataView,
)
    ensures
        sender.told(batching, app, event, data) is Some <==> (app.webhooks matches Some(list)
            && exists|i: int|
            0 <= i < list.len() && (#[trigger] list[i]).event_types.contains(event.name())),
        sender.told(batching, app, event, data) is None ==> sender.after_telling(
            batching,
            app,
            event,
            data,
        ) == sender,
{
}

/// Events that are put together keep all that they hold, in their order, and get the time of the
/// job.
pub proof fn job_keeps_its_events(events: Seq<EventDataView>, time_ms: u64, i: int)
    requires
        0 <= i < events.len(),
    ensures
        ({
            &&& payload_of(events, time_ms) matches Some(payload)
            &&& payload.time_ms == time_ms
            &&& payload.events.len() == events.len()
            &&& payload.events[i] == (EventDataView {
                name: events[i].name,
                channel: events[i].channel,
                event: events[i].event,
                data: events[i].data,
                socket_id: events[i].socket_id,
                user_id: events[i].user_id,
                time_ms: Some(time_ms),
            })
        }),
        payload_of(Seq::empty(), time_ms) is None,
{
}

/// Whether the name of a channel starts and ends as a webhook asks, where it asks anything.
pub open spec fn asked_for(webhook: WebhookView, channel: Seq<char>) -> bool {
    match webhook.filter {
        None => true,
        Some(filter) => (match filter.channel_name_starts_with {
            Some(starts) => starts.is_prefix_of(channel),
            None => true,
        }) && (match filter.channel_name_ends_with {
            Some(ends) => ends.is_suffix_of(channel),
            None => true,
        }),
    }
}

/// A job is delivered by a webhook that lists the kind of its first event, and that asks for all its
/// channels, by the beginning and by the end of their names. It goes to the webhook's URL with its
/// headers; where it has none, to its Lambda function; and else nowhere.
pub proof fn webhook_delivers_what_it_lists(webhook: WebhookView, events: Seq<EventDataView>)
    requires
        events.len() > 0,
    ensures
        ({
            let told = webhook.event_types.contains(events[0].name) && forall|i: int|
                0 <= i < events.len() ==> asked_for(webhook, (#[trigger] events[i]).channel);
            webhook.delivery(events) == if !told {
                None
            } else {
                match (webhook.url, webhook.lambda_function) {
                    (Some(url), _) => Some(
                        DeliveryView::Http {
                            url,
                            headers: match webhook.headers {
                                Some(headers) => headers,
                                None => Map::empty(),
                            },
                        },
                    ),
                    (None, Some(function)) => Some(
                        DeliveryView::Lambda { function, config: webhook.lambda },
                    ),
                    (None, None) => None,
                }
            }
        }),
{
    if webhook.filter is Some {
        let filter = webhook.filter->0;
        assert forall|i: int| 0 <= i < events.len() implies filter.passes(
            (#[trigger] events[i]).channel,
        ) == asked_for(webhook, events[i].channel) by {}
        if forall|i: int|
            0 <= i < events.len() ==> asked_for(webhook, (#[trigger] events[i]).channel) {
            assert forall|i: int| 0 <= i < events.len() implies filter.passes(
                (#[trigger] events[i]).channel,
            ) by {
                assert(asked_for(webhook, events[i].channel));
            }
        }
    }
}

/// Each webhook delivers a job at most once, and in their order: what several webhooks deliver is
/// what the first of them deliver, followed by what the last does.
pub proof fn webhooks_deliver_in_order(
    webhooks: Seq<WebhookView>,
    more: Seq<WebhookView>,
    webhook: WebhookView,
    events: Seq<EventDataView>,
)
    ensures
        deliveries(webhooks + more, events) == deliveries(webhooks, events) + deliveries(
            more,
            events,
        ),
        deliveries(seq![webhook], events) == match webhook.delivery(events) {
            Some(d) => seq![d],
            None => Seq::empty(),
        },
        deliveries(Seq::empty(), events) == Seq::<DeliveryView>::empty(),
    decreases more.len(),
{
    reveal_with_fuel(deliveries, 2);
    assert(seq![webhook].drop_last() =~= Seq::<WebhookView>::empty());
    assert(seq![webhook].last() == webhook);
    if webhook.delivery(events) is Some {
        let d = webhook.delivery(events)->0;
        assert(Seq::<DeliveryView>::empty().push(d) =~= seq![d]);
    }
    if more.len() == 0 {
        assert(webhooks + more =~= webhooks);
        assert(deliveries(webhooks, events) + deliveries(more, events) =~= deliveries(
            webhooks,
            events,
        ));
    } else {
        webhooks_deliver_in_order(webhooks, more.drop_last(), webhook, events);
        assert((webhooks + more).drop_last() =~= webhooks + more.drop_last());
        assert((webhooks + more).last() == more.last());
        let first = deliveries(webhooks, events);
        let rest = deliveries(more.drop_last(), events);
        match more.last().delivery(events) {
            Some(d) => {
                assert((first + rest).push(d) =~= first + rest.push(d));
            },
            None => {},
        }
    }
}

/// A job is delivered to this machine once where its first event is one of a client or of a user that
/// joins or leaves, and else nowhere; its signature is checked under the secret for such jobs.
pub proof fn job_is_delivered_to_this_machine(
    app_id: Seq<char>,
    app_key: Seq<char>,
    events: Seq<EventDataView>,
)
    requires
        events.len() > 0,
    ensures
        deliveries(job_app(app_id, app_key).webhook_list(), events) == if events[0].name
            == "client_event"@ || events[0].name == "member_added"@ || events[0].name
            == "member_removed"@ {
            seq![
                DeliveryView::Http {
                    url: "http://localhost:3000/webhook"@,
                    headers: Map::empty(),
                },
            ]
        } else {
            Seq::empty()
        },
        job_app(app_id, app_key).secret == "demo-secret"@,
        job_app(app_id, app_key).id == app_id,
        job_app(app_id, app_key).key == app_key,
{
    let list = job_app(app_id, app_key).webhook_list();
    let webhook = list[0];
    assert(list =~= seq![webhook]);
    webhooks_deliver_in_order(Seq::empty(), Seq::empty(), webhook, events);
    let kinds = webhook.event_types;
    assert(kinds[0] == "client_event"@);
    assert(kinds[1] == "member_added"@);
    assert(kinds[2] == "member_removed"@);
    assert(kinds.len() == 3);
}

} // verus!
