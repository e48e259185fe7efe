//! Webhook events and configurations.

use vstd::prelude::*;

use crate::app::config::{App, AppView};
use crate::json::{Json, JsonView};
use crate::model::{copy_option, copy_vec, opt_view, views, Duplicate};
use crate::table::Dict;
use crate::text::{copy_opt, opt_text, same, texts};

verus! {

/// What a webhook can be told of.
#[derive(Debug, Clone, Copy, PartialEq, Eq, Structural)]
pub enum WebhookEvent {
    ClientEvent,
    ChannelOccupied,
    ChannelVacated,
    MemberAdded,
    MemberRemoved,
    CacheMiss,
}

impl WebhookEvent {
    /// The name of the event.
    pub open spec fn name(self) -> Seq<char> {
        match self {
            WebhookEvent::ClientEvent => "client_event"@,
            WebhookEvent::ChannelOccupied => "channel_occupied"@,
            WebhookEvent::ChannelVacated => "channel_vacated"@,
            WebhookEvent::MemberAdded => "member_added"@,
            WebhookEvent::MemberRemoved => "member_removed"@,
            WebhookEvent::CacheMiss => "cache_miss"@,
        }
    }

    /// The name of the queue for the event.
    pub open spec fn queue(self) -> Seq<char> {
        match self {
            WebhookEvent::ClientEvent => "client_event_webhooks"@,
            WebhookEvent::ChannelOccupied => "channel_occupied_webhooks"@,
            WebhookEvent::ChannelVacated => "channel_vacated_webhooks"@,
            WebhookEvent::MemberAdded => "member_added_webhooks"@,
            WebhookEvent::MemberRemoved => "member_removed_webhooks"@,
            WebhookEvent::CacheMiss => "cache_miss_webhooks"@,
        }
    }

    /// The name of the event.
    pub fn as_str(&self) -> (r: &'static str)
        ensures
            r@ == self.name(),
    {
        match self {
            WebhookEvent::ClientEvent => "client_event",
            WebhookEvent::ChannelOccupied => "channel_occupied",
            WebhookEvent::ChannelVacated => "channel_vacated",
            WebhookEvent::MemberAdded => "member_added",
            WebhookEvent::MemberRemoved => "member_removed",
            WebhookEvent::CacheMiss => "cache_miss",
        }
    }

    /// The name of the queue for the event.
    pub fn to_queue_name(&self) -> (r: &'static str)
        ensures
            r@ == self.queue(),
    {
        match self {
            WebhookEvent::ClientEvent => "client_event_webhooks",
            WebhookEvent::ChannelOccupied => "channel_occupied_webhooks",
            WebhookEvent::ChannelVacated => "channel_vacated_webhooks",
            WebhookEvent::MemberAdded => "member_added_webhooks",
            WebhookEvent::MemberRemoved => "member_removed_webhooks",
            WebhookEvent::CacheMiss => "cache_miss_webhooks",
        }
    }
}

/// A queue is named after its event: the event's name, followed by `_webhooks`.
pub proof fn queue_is_named_after_event(event: WebhookEvent)
    ensures
        event.queue() == event.name() + "_webhooks"@,
{
    reveal_strlit("_webhooks");
    reveal_strlit("client_event");
    reveal_strlit("client_event_webhooks");
    reveal_strlit("channel_occupied");
    reveal_strlit("channel_occupied_webhooks");
    reveal_strlit("channel_vacated");
    reveal_strlit("channel_vacated_webhooks");
    reveal_strlit("member_added");
    reveal_strlit("member_added_webhooks");
    reveal_strlit("member_removed");
    reveal_strlit("member_removed_webhooks");
    reveal_strlit("cache_miss");
    reveal_strlit("cache_miss_webhooks");
    assert(event.queue() =~= event.name() + "_webhooks"@);
}

/// No two events share a name, so no two share a queue.
pub proof fn events_have_distinct_names(a: WebhookEvent, b: WebhookEvent)
    requires
        a != b,
    ensures
        a.name() != b.name(),
        a.queue() != b.queue(),
{
    reveal_strlit("client_event");
    reveal_strlit("channel_occupied");
    reveal_strlit("channel_vacated");
    reveal_strlit("member_added");
    reveal_strlit("member_removed");
    reveal_strlit("cache_miss");
    assert("client_event"@[1] == 'l');
    assert("channel_occupied"@[1] == 'h');
    assert("channel_vacated"@[1] == 'h');
    assert("channel_occupied"@.len() == 16);
    assert("channel_vacated"@.len() == 15);
    assert("member_added"@[0] == 'm');
    assert("member_removed"@[0] == 'm');
    assert("cache_miss"@[1] == 'a');
    assert("client_event"@[0] == 'c');
    assert("channel_occupied"@[0] == 'c');
    assert("channel_vacated"@[0] == 'c');
    assert("cache_miss"@[0] == 'c');
    queue_is_named_after_event(a);
    queue_is_named_after_event(b);
    assert(a.queue().take(a.name().len() as int) =~= a.name());
    assert(b.queue().take(b.name().len() as int) =~= b.name());
    if a.queue() == b.queue() {
        assert(a.name().len() == b.name().len());
        assert(a.name() =~= b.name());
    }
}

/// One event as a webhook is told of it.
pub struct ClientEventData {
    pub name: String,
    pub channel: String,
    pub event: Option<String>,
    pub data: Option<Json>,
    pub socket_id: Option<String>,
    pub user_id: Option<String>,
    pub time_ms: Option<u64>,
}

/// One event by its view.
#[verifier::ext_equal]
pub struct EventDataView {
    pub name: Seq<char>,
    pub channel: Seq<char>,
    pub event: Option<Seq<char>>,
    pub data: Option<JsonView>,
    pub socket_id: Option<Seq<char>>,
    pub user_id: Option<Seq<char>>,
    pub time_ms: Option<u64>,
}

impl View for ClientEventData {
    type V = EventDataView;

    open spec fn view(&self) -> EventDataView {
        EventDataView {
            name: self.name@,
            channel: self.channel@,
            event: opt_text(self.event),
            data: opt_view(self.data),
            socket_id: opt_text(self.socket_id),
            user_id: opt_text(self.user_id),
            time_ms: self.time_ms,
        }
    }
}

impl Duplicate for ClientEventData {
    fn duplicate(&self) -> (r: Self) {
        ClientEventData {
            name: self.name.clone(),
            channel: self.channel.clone(),
            event: copy_opt(&self.event),
            data: copy_option(&self.data),
            socket_id: copy_opt(&self.socket_id),
            user_id: copy_opt(&self.user_id),
            time_ms: self.time_ms,
        }
    }
}

impl Clone for ClientEventData {
    fn clone(&self) -> (r: Self)
        ensures
            r@ == self@,
    {
        self.duplicate()
    }
}

/// The events of a job and when they were put together.
pub struct JobPayload {
    pub time_ms: u64,
    pub events: Vec<ClientEventData>,
}

/// A job for the queue: events of one application, and the signature that goes with them.
pub struct JobData {
    pub app_key: String,
    pub app_id: String,
    pub payload: JobPayload,
    pub original_signature: String,
}

/// The events of a job by their views.
#[verifier::ext_equal]
pub struct PayloadView {
    pub time_ms: u64,
    pub events: Seq<EventDataView>,
}

/// A job by its view.
#[verifier::ext_equal]
pub struct JobView {
    pub app_key: Seq<char>,
    pub app_id: Seq<char>,
    pub payload: PayloadView,
    pub original_signature: Seq<char>,
}

impl View for JobPayload {
    type V = PayloadView;

    open spec fn view(&self) -> PayloadView {
        PayloadView { time_ms: self.time_ms, events: views(self.events@) }
    }
}

impl View for JobData {
    type V = JobView;

    open spec fn view(&self) -> JobView {
        JobView {
            app_key: self.app_key@,
            app_id: self.app_id@,
            payload: self.payload@,
            original_signature: self.original_signature@,
        }
    }
}

impl Duplicate for JobPayload {
    fn duplicate(&self) -> (r: Self) {
        JobPayload { time_ms: self.time_ms, events: copy_vec(&self.events) }
    }
}

impl Clone for JobPayload {
    fn clone(&self) -> (r: Self)
        ensures
            r@ == self@,
    {
        self.duplicate()
    }
}

impl Duplicate for JobData {
    fn duplicate(&self) -> (r: Self) {
        JobData {
            app_key: self.app_key.clone(),
            app_id: self.app_id.clone(),
            payload: self.payload.duplicate(),
            original_signature: self.original_signature.clone(),
        }
    }
}

impl Clone for JobData {
    fn clone(&self) -> (r: Self)
        ensures
            r@ == self@,
    {
        self.duplicate()
    }
}

/// The channels that a webhook is told of.
pub struct WebhookFilter {
    pub channel_name_starts_with: Option<String>,
    pub channel_name_ends_with: Option<String>,
}

/// A filter by its view.
#[verifier::ext_equal]
pub struct FilterView {
    pub channel_name_starts_with: Option<Seq<char>>,
    pub channel_name_ends_with: Option<Seq<char>>,
}

impl View for WebhookFilter {
    type V = FilterView;

    open spec fn view(&self) -> FilterView {
        FilterView {
            channel_name_starts_with: opt_text(self.channel_name_starts_with),
            channel_name_ends_with: opt_text(self.channel_name_ends_with),
        }
    }
}

impl Duplicate for WebhookFilter {
    fn duplicate(&self) -> (r: Self) {
        WebhookFilter {
            channel_name_starts_with: copy_opt(&self.channel_name_starts_with),
            channel_name_ends_with: copy_opt(&self.channel_name_ends_with),
        }
    }
}

impl Clone for WebhookFilter {
    fn clone(&self) -> (r: Self)
        ensures
            r@ == self@,
    {
        self.duplicate()
    }
}

/// How a Lambda function is called.
pub struct LambdaConfig {
    pub region: Option<String>,
    pub async_execution: Option<bool>,
    pub client_options: Option<Dict<String>>,
}

/// How a Lambda function is called, by its view.
#[verifier::ext_equal]
pub struct LambdaView {
    pub region: Option<Seq<char>>,
    pub async_execution: Option<bool>,
    pub client_options: Option<Map<Seq<char>, Seq<char>>>,
}

impl View for LambdaConfig {
    type V = LambdaView;

    open spec fn view(&self) -> LambdaView {
        LambdaView {
            region: opt_text(self.region),
            async_execution: self.async_execution,
            client_options: opt_view(self.client_options),
        }
    }
}

impl Duplicate for LambdaConfig {
    fn duplicate(&self) -> (r: Self) {
        LambdaConfig {
            region: copy_opt(&self.region),
            async_execution: self.async_execution,
            client_options: copy_option(&self.client_options),
        }
    }
}

impl Clone for LambdaConfig {
    fn clone(&self) -> (r: Self)
        ensures
            r@ == self@,
    {
        self.duplicate()
    }
}

/// A webhook: where it is delivered, which events it is for and which channels.
pub struct Webhook {
    pub url: Option<String>,
    pub lambda_function: Option<String>,
    pub lambda: Option<LambdaConfig>,
    pub event_types: Vec<String>,
    pub filter: Option<WebhookFilter>,
    pub headers: Option<Dict<String>>,
}

/// A webhook by its view.
#[verifier::ext_equal]
pub struct WebhookView {
    pub url: Option<Seq<char>>,
    pub lambda_function: Option<Seq<char>>,
    pub lambda: Option<LambdaView>,
    pub event_types: Seq<Seq<char>>,
    pub filter: Option<FilterView>,
    pub headers: Option<Map<Seq<char>, Seq<char>>>,
}

impl View for Webhook {
    type V = WebhookView;

    open spec fn view(&self) -> WebhookView {
        WebhookView {
            url: opt_text(self.url),
            lambda_function: opt_text(self.lambda_function),
            lambda: opt_view(self.lambda),
            event_types: texts(self.event_types@),
            filter: opt_view(self.filter),
            headers: opt_view(self.headers),
        }
    }
}

impl Duplicate for Webhook {
    fn duplicate(&self) -> (r: Self) {
        let event_types = copy_vec(&self.event_types);
        assert(texts(event_types@) == views(event_types@));
        assert(texts(self.event_types@) == views(self.event_types@));
        Webhook {
            url: copy_opt(&self.url),
            lambda_function: copy_opt(&self.lambda_function),
            lambda: copy_option(&self.lambda),
            event_types,
            filter: copy_option(&self.filter),
            headers: copy_option(&self.headers),
        }
    }
}

impl Clone for Webhook {
    fn clone(&self) -> (r: Self)
        ensures
            r@ == self@,
    {
        self.duplicate()
    }
}

/// Whether one of `webhooks` is for the event with this name.
pub open spec fn some_webhook_for(webhooks: Seq<WebhookView>, name: Seq<char>) -> bool {
    exists|i: int| 0 <= i < webhooks.len() && (#[trigger] webhooks[i]).event_types.contains(name)
}

impl AppView {
    /// The webhooks of an application; one without a list has none.
    pub open spec fn webhook_list(self) -> Seq<WebhookView> {
        match self.webhooks {
            Some(list) => list,
            None => Seq::empty(),
        }
    }

    /// Whether the application has a webhook for `event`.
    pub open spec fn wants(self, event: WebhookEvent) -> bool {
        some_webhook_for(self.webhook_list(), event.name())
    }
}

/// Whether `name` stands in `list`.
pub fn list_has(list: &Vec<String>, name: &str) -> (r: bool)
    ensures
        r == texts(list@).contains(name@),
{
    let mut i: usize = 0;
    while i < list.len()
        invariant
            i <= list@.len(),
            forall|j: int| 0 <= j < i ==> (#[trigger] list@[j])@ != name@,
        decreases list@.len() - i,
    {
        if same(list[i].as_str(), name) {
            assert(texts(list@)[i as int] == name@);
            return true;
        }
        i = i + 1;
    }
    proof {
        if texts(list@).contains(name@) {
            let j = choose|j: int| 0 <= j < texts(list@).len() && texts(list@)[j] == name@;
            assert(list@[j]@ == name@);
        }
    }
    false
}

/// Whether an application has a webhook for `event`.
fn has_webhook_for(app: &App, event: WebhookEvent) -> (r: bool)
    ensures
        r == app@.wants(event),
{
    match &app.webhooks {
        None => false,
        Some(list) => {
            let mut i: usize = 0;
            while i < list.len()
                invariant
                    i <= list@.len(),
                    app@.webhook_list() == views(list@),
                    forall|j: int|
                        0 <= j < i ==> !(#[trigger] views(list@)[j]).event_types.contains(
                            event.name(),
                        ),
                decreases list@.len() - i,
            {
                assert(views(list@)[i as int] == list@[i as int]@);
                if list_has(&list[i].event_types, event.as_str()) {
                    return true;
                }
                i = i + 1;
            }
            false
        },
    }
}

/// What an application's webhooks are for.
pub trait AppWebhook {
    spec fn webhook_model(&self) -> AppView;

    /// Whether there is a webhook for client events.
    fn has_client_event_webhooks(&self) -> (r: bool)
        ensures
            r == self.webhook_model().wants(WebhookEvent::ClientEvent),
    ;

    /// Whether there is a webhook for channels that get their first subscriber.
    fn has_channel_occupied_webhooks(&self) -> (r: bool)
        ensures
            r == self.webhook_model().wants(WebhookEvent::ChannelOccupied),
    ;

    /// Whether there is a webhook for channels that lose their last subscriber.
    fn has_channel_vacated_webhooks(&self) -> (r: bool)
        ensures
            r == self.webhook_model().wants(WebhookEvent::ChannelVacated),
    ;

    /// Whether there is a webhook for users that join a presence channel.
    fn has_member_added_webhooks(&self) -> (r: bool)
        ensures
            r == self.webhook_model().wants(WebhookEvent::MemberAdded),
    ;

    /// Whether there is a webhook for users that leave a presence channel.
    fn has_member_removed_webhooks(&self) -> (r: bool)
        ensures
            r == self.webhook_model().wants(WebhookEvent::MemberRemoved),
    ;

    /// Whether there is a webhook for cache channels without a cached event.
    fn has_cache_missed_webhooks(&self) -> (r: bool)
        ensures
            r == self.webhook_model().wants(WebhookEvent::CacheMiss),
    ;

    /// The webhooks, none where there is no list of them.
    fn get_webhooks(&self) -> (r: &[Webhook])
        ensures
            views(r@) == self.webhook_model().webhook_list(),
    ;
}

impl AppWebhook for App {
    open spec fn webhook_model(&self) -> AppView {
        self@
    }

    fn has_client_event_webhooks(&self) -> (r: bool) {
        has_webhook_for(self, WebhookEvent::ClientEvent)
    }

    fn has_channel_occupied_webhooks(&self) -> (r: bool) {
        has_webhook_for(self, WebhookEvent::ChannelOccupied)
    }

    fn has_channel_vacated_webhooks(&self) -> (r: bool) {
        has_webhook_for(self, WebhookEvent::ChannelVacated)
    }

    fn has_member_added_webhooks(&self) -> (r: bool) {
        has_webhook_for(self, WebhookEvent::MemberAdded)
    }

    fn has_member_removed_webhooks(&self) -> (r: bool) {
        has_webhook_for(self, WebhookEvent::MemberRemoved)
    }

    fn has_cache_missed_webhooks(&self) -> (r: bool) {
        has_webhook_for(self, WebhookEvent::CacheMiss)
    }

    fn get_webhooks(&self) -> (r: &[Webhook]) {
        match &self.webhooks {
            Some(list) => list.as_slice(),
            None => {
                let none: &[Webhook] = &[];
                assert(views(none@) =~= Seq::<WebhookView>::empty());
                none
            },
        }
    }
}

} // verus!
