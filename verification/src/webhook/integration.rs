//! Webhooks as the server uses them.

use vstd::prelude::*;

use crate::app::config::{App, AppView};
use crate::ids::{is_uuid_v4, random_id};
use crate::json::Json;
use crate::model::opt_view;
use crate::text::{opt_str, opt_text};
use crate::webhook::queue::{queue_choice, ChoiceView, QueueChoice, QueueManagerFactory};
use crate::webhook::sender::{
    client_event, plain_event, user_event, SenderView, Sent, SentView, WebhookSender,
    WebhookSenderConfig,
};
use crate::webhook::types::{AppWebhook, EventDataView, WebhookEvent};

verus! {

/// How webhooks are used.
pub struct WebhookConfig {
    pub enabled: bool,
    pub batching: BatchingConfig,
    pub queue_driver: String,
    pub redis_url: Option<String>,
    pub redis_prefix: Option<String>,
    pub redis_concurrency: Option<usize>,
    pub process_id: String,
    pub debug: bool,
}

/// Whether events are collected before they are sent, and how long.
pub struct BatchingConfig {
    pub enabled: bool,
    /// In milliseconds.
    pub duration: u64,
}

impl Default for WebhookConfig {
    fn default() -> (r: Self)
        ensures
            r.enabled,
            !r.batching.enabled,
            r.batching.duration == 10,
            r.queue_driver@ == "redis"@,
            opt_text(r.redis_url) == Some("redis://localhost:6379"@),
            opt_text(r.redis_prefix) == Some("sockudo"@),
            r.redis_concurrency == Some(5usize),
            is_uuid_v4(r.process_id@),
            !r.debug,
    {
        WebhookConfig {
            enabled: true,
            batching: BatchingConfig { enabled: false, duration: 10 },
            queue_driver: "redis".to_string(),
            redis_url: Some("redis://localhost:6379".to_string()),
            redis_prefix: Some("sockudo".to_string()),
            redis_concurrency: Some(5),
            process_id: random_id(),
            debug: false,
        }
    }
}

impl Default for BatchingConfig {
    fn default() -> (r: Self)
        ensures
            r.enabled,
            r.duration == 50,
    {
        BatchingConfig { enabled: true, duration: 50 }
    }
}

/// The webhooks of a server, where they are enabled.
pub struct WebhookIntegration {
    sender: Option<WebhookSender>,
    config: WebhookConfig,
}

impl WebhookIntegration {
    /// How webhooks are used.
    pub closed spec fn settings(&self) -> WebhookConfig {
        self.config
    }

    /// What sends the webhooks, where they are sent.
    pub closed spec fn held(&self) -> Option<WebhookSender> {
        self.sender
    }

    /// How webhooks are sent, where they are.
    pub open spec fn sender_settings(&self) -> Option<WebhookSenderConfig> {
        match self.held() {
            Some(sender) => Some(sender.settings()),
            None => None,
        }
    }

    /// Whether webhooks are sent.
    pub open spec fn sends(&self) -> bool {
        self.held() is Some
    }

    /// Whether an event of an application was handled: `r` is what became of it, and `after` are
    /// the webhooks after it. Where webhooks are not sent, nothing happens.
    pub open spec fn tells(
        self,
        app: AppView,
        event: WebhookEvent,
        data: EventDataView,
        r: Option<SentView>,
        after: WebhookIntegration,
    ) -> bool {
        &&& after.settings() == self.settings()
        &&& match (self.held(), after.held()) {
            (Some(sender), Some(next)) => {
                let batching = sender.settings().batching_enabled;
                &&& next.settings() == sender.settings()
                &&& r == sender@.told(batching, app, event, data)
                &&& next@ == sender@.after_telling(batching, app, event, data)
            },
            (None, None) => r is None,
            _ => false,
        }
    }

    /// The webhooks of a server with these settings: they are sent where they are enabled.
    pub fn new(config: WebhookConfig) -> (r: Self)
        ensures
            r.settings() == config,
            match r.sender_settings() {
                Some(sender) => {
                    &&& config.enabled
                    &&& sender.process_id@ == config.process_id@
                    &&& sender.debug == config.debug
                    &&& sender.batching_enabled == config.batching.enabled
                    &&& sender.batching_duration == config.batching.duration
                    &&& sender.can_process_queues
                    &&& sender.http_timeout == 10
                    &&& sender.max_retries == 10
                    &&& sender.retry_delay == 10
                },
                None => !config.enabled,
            },
            r.held() matches Some(sender) ==> sender@ == SenderView::empty(),
    {
        if !config.enabled {
            return WebhookIntegration { sender: None, config };
        }
        let sender_config = WebhookSenderConfig {
            process_id: config.process_id.clone(),
            debug: config.debug,
            batching_enabled: config.batching.enabled,
            batching_duration: config.batching.duration,
            can_process_queues: true,
            http_timeout: 10,
            max_retries: 10,
            retry_delay: 10,
        };
        let sender = WebhookSender::new(sender_config);
        WebhookIntegration { sender: Some(sender), config }
    }

    /// The queues that jobs are put in, where webhooks are enabled.
    pub fn queue(&self) -> (r: Option<QueueChoice>)
        ensures
            opt_view(r) == if self.settings().enabled {
                Some(
                    queue_choice(
                        self.settings().queue_driver@,
                        opt_text(self.settings().redis_url),
                        opt_text(self.settings().redis_prefix),
                        self.settings().redis_concurrency,
                    ),
                )
            } else {
                None::<ChoiceView>
            },
    {
        if !self.config.enabled {
            return None;
        }
        let url = match &self.config.redis_url {
            Some(url) => Some(url.as_str()),
            None => None,
        };
        let prefix = match &self.config.redis_prefix {
            Some(prefix) => Some(prefix.as_str()),
            None => None,
        };
        Some(
            QueueManagerFactory::create(
                self.config.queue_driver.as_str(),
                url,
                prefix,
                self.config.redis_concurrency,
            ),
        )
    }

    /// The sender, where webhooks are sent.
    pub fn sender(&self) -> (r: Option<&WebhookSender>)
        ensures
            match r {
                Some(sender) => self.held() == Some(*sender),
                None => self.held() is None,
            },
    {
        match &self.sender {
            Some(sender) => Some(sender),
            None => None,
        }
    }

    /// The sender, where webhooks are sent, to be changed in place.
    pub fn sender_mut(&mut self) -> (r: Option<&mut WebhookSender>)
        ensures
            final(self).settings() == old(self).settings(),
            match r {
                Some(sender) => old(self).held() == Some(*sender) && final(self).held() == Some(
                    *final(sender),
                ),
                None => old(self).held() is None && final(self).held() is None,
            },
    {
        match &mut self.sender {
            Some(sender) => Some(sender),
            None => None,
        }
    }

    /// Whether webhooks are enabled and sent.
    pub fn is_enabled(&self) -> (r: bool)
        ensures
            r == (self.settings().enabled && self.sends()),
    {
        self.config.enabled && self.sender.is_some()
    }

    /// Sends an event of a client.
    pub fn send_client_event(
        &mut self,
        app: &App,
        channel: &str,
        event: &str,
        data: Json,
        socket_id: Option<&str>,
        user_id: Option<&str>,
    ) -> (r: Option<Sent>)
        ensures
            old(self).tells(
                app@,
                WebhookEvent::ClientEvent,
                client_event(channel@, event@, data@, opt_str(socket_id), opt_str(user_id)),
                opt_view(r),
                *final(self),
            ),
    {
        match &mut self.sender {
            Some(sender) => sender.send_client_event(app, channel, event, data, socket_id, user_id),
            None => None,
        }
    }

    /// Sends that a channel got its first subscriber.
    pub fn send_channel_occupied(&mut self, app: &App, channel: &str) -> (r: Option<Sent>)
        ensures
            old(self).tells(
                app@,
                WebhookEvent::ChannelOccupied,
                plain_event(WebhookEvent::ChannelOccupied, channel@),
                opt_view(r),
                *final(self),
            ),
    {
        match &mut self.sender {
            Some(sender) => sender.send_channel_occupied(app, channel),
            None => None,
        }
    }

    /// Sends that a channel lost its last subscriber.
    pub fn send_channel_vacated(&mut self, app: &App, channel: &str) -> (r: Option<Sent>)
        ensures
            old(self).tells(
                app@,
                WebhookEvent::ChannelVacated,
                plain_event(WebhookEvent::ChannelVacated, channel@),
                opt_view(r),
                *final(self),
            ),
    {
        match &mut self.sender {
            Some(sender) => sender.send_channel_vacated(app, channel),
            None => None,
        }
    }

    /// Sends that a user joined a presence channel.
    pub fn send_member_added(&mut self, app: &App, channel: &str, user_id: &str) -> (r: Option<Sent>)
        ensures
            old(self).tells(
                app@,
                WebhookEvent::MemberAdded,
                user_event(WebhookEvent::MemberAdded, channel@, user_id@),
                opt_view(r),
                *final(self),
            ),
    {
        if !app.has_member_added_webhooks() {
            return None;
        }
        match &mut self.sender {
            Some(sender) => sender.send_member_added(app, channel, user_id),
            None => None,
        }
    }

    /// Sends that a user left a presence channel.
    pub fn send_member_removed(&mut self, app: &App, channel: &str, user_id: &str) -> (r: Option<Sent>)
        ensures
            old(self).tells(
                app@,
                WebhookEvent::MemberRemoved,
                user_event(WebhookEvent::MemberRemoved, channel@, user_id@),
                opt_view(r),
                *final(self),
            ),
    {
        match &mut self.sender {
            Some(sender) => sender.send_member_removed(app, channel, user_id),
            None => None,
        }
    }

    /// Sends that a cache channel has no cached event.
    pub fn send_cache_missed(&mut self, app: &App, channel: &str) -> (r: Option<Sent>)
        ensures
            old(self).tells(
                app@,
                WebhookEvent::CacheMiss,
                plain_event(WebhookEvent::CacheMiss, channel@),
                opt_view(r),
                *final(self),
            ),
    {
        match &mut self.sender {
            Some(sender) => sender.send_cache_missed(app, channel),
            None => None,
        }
    }
}

/// Where webhooks are sent, an event that the application's webhooks list is submitted alone, or
/// where events are batched, waits behind the others of its queue, as it was given. Where webhooks are
/// not sent, or the application's webhooks do not list it, nothing becomes of it.
pub proof fn webhooks_are_told_where_they_are_sent(
    webhooks: WebhookIntegration,
    app: AppView,
    event: WebhookEvent,
    data: EventDataView,
    r: Option<SentView>,
    after: WebhookIntegration,
)
    requires
        webhooks.tells(app, event, data, r, after),
    ensures
        webhooks.held() is None || !app.wants(event) ==> r is None,
        webhooks.held() is None ==> after.held() is None,
        webhooks.held() is Some && app.wants(event) ==> {
            let sender = webhooks.held()->0;
            &&& after.held() matches Some(next)
            &&& !sender.settings().batching_enabled ==> r == Some(
                SentView::Queued(
                    crate::webhook::sender::SubmissionView {
                        queue: event.queue(),
                        events: seq![data],
                    },
                ),
            ) && next@ == sender@
            &&& sender.settings().batching_enabled ==> {
                &&& r matches Some(SentView::Waiting { .. })
                &&& next@.batch.contains_key(event.queue())
                &&& next@.batch[event.queue()].last() == data
                &&& next@.batch.remove(event.queue()) == sender@.batch.remove(event.queue())
            }
        },
{
    if webhooks.held() is Some && app.wants(event) {
        let sender = webhooks.held()->0;
        if sender.settings().batching_enabled {
            let next = after.held()->0;
            assert(next@.batch.remove(event.queue()) =~= sender@.batch.remove(event.queue()));
        }
    }
}

} // verus!
