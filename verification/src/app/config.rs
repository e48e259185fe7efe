//! Applications and their limits.

use vstd::prelude::*;

use crate::model::{copy_vec, views, Duplicate};
use crate::webhook::types::{Webhook, WebhookView};

verus! {

/// An application: its credentials, its limits and its webhooks.
pub struct App {
    /// The id under which the application is registered.
    pub id: String,
    /// The public key.
    pub key: String,
    /// The secret with which requests are signed.
    pub secret: String,
    /// How many connections the application may have.
    pub max_connections: u32,
    /// Whether clients may send events.
    pub enable_client_messages: bool,
    /// Whether the application is in use.
    pub enabled: bool,
    pub max_backend_events_per_second: Option<u32>,
    pub max_client_events_per_second: u32,
    pub max_read_requests_per_second: Option<u32>,
    pub max_presence_members_per_channel: Option<u32>,
    pub max_presence_member_size_in_kb: Option<u32>,
    pub max_channel_name_length: Option<u32>,
    pub max_event_channels_at_once: Option<u32>,
    pub max_event_name_length: Option<u32>,
    pub max_event_payload_in_kb: Option<u32>,
    pub max_event_batch_size: Option<u32>,
    pub enable_user_authentication: Option<bool>,
    /// The webhooks of the application.
    pub webhooks: Option<Vec<Webhook>>,
}

/// An application by its view.
#[verifier::ext_equal]
pub struct AppView {
    pub id: Seq<char>,
    pub key: Seq<char>,
    pub secret: Seq<char>,
    pub max_connections: u32,
    pub enable_client_messages: bool,
    pub enabled: bool,
    pub max_backend_events_per_second: Option<u32>,
    pub max_client_events_per_second: u32,
    pub max_read_requests_per_second: Option<u32>,
    pub max_presence_members_per_channel: Option<u32>,
    pub max_presence_member_size_in_kb: Option<u32>,
    pub max_channel_name_length: Option<u32>,
    pub max_event_channels_at_once: Option<u32>,
    pub max_event_name_length: Option<u32>,
    pub max_event_payload_in_kb: Option<u32>,
    pub max_event_batch_size: Option<u32>,
    pub enable_user_authentication: Option<bool>,
    pub webhooks: Option<Seq<WebhookView>>,
}

/// A list of webhooks, if there is one, by its view.
pub open spec fn webhooks_view(webhooks: Option<Vec<Webhook>>) -> Option<Seq<WebhookView>> {
    match webhooks {
        Some(list) => Some(views(list@)),
        None => None,
    }
}

impl View for App {
    type V = AppView;

    open spec fn view(&self) -> AppView {
        AppView {
            id: self.id@,
            key: self.key@,
            secret: self.secret@,
            max_connections: self.max_connections,
            enable_client_messages: self.enable_client_messages,
            enabled: self.enabled,
            max_backend_events_per_second: self.max_backend_events_per_second,
            max_client_events_per_second: self.max_client_events_per_second,
            max_read_requests_per_second: self.max_read_requests_per_second,
            max_presence_members_per_channel: self.max_presence_members_per_channel,
            max_presence_member_size_in_kb: self.max_presence_member_size_in_kb,
            max_channel_name_length: self.max_channel_name_length,
            max_event_channels_at_once: self.max_event_channels_at_once,
            max_event_name_length: self.max_event_name_length,
            max_event_payload_in_kb: self.max_event_payload_in_kb,
            max_event_batch_size: self.max_event_batch_size,
            enable_user_authentication: self.enable_user_authentication,
            webhooks: webhooks_view(self.webhooks),
        }
    }
}

impl Duplicate for App {
    fn duplicate(&self) -> (r: Self) {
        let webhooks = match &self.webhooks {
            Some(list) => Some(copy_vec(list)),
            None => None,
        };
        App {
            id: self.id.clone(),
            key: self.key.clone(),
            secret: self.secret.clone(),
            max_connections: self.max_connections,
            enable_client_messages: self.enable_client_messages,
            enabled: self.enabled,
            max_backend_events_per_second: self.max_backend_events_per_second,
            max_client_events_per_second: self.max_client_events_per_second,
            max_read_requests_per_second: self.max_read_requests_per_second,
            max_presence_members_per_channel: self.max_presence_members_per_channel,
            max_presence_member_size_in_kb: self.max_presence_member_size_in_kb,
            max_channel_name_length: self.max_channel_name_length,
            max_event_channels_at_once: self.max_event_channels_at_once,
            max_event_name_length: self.max_event_name_length,
            max_event_payload_in_kb: self.max_event_payload_in_kb,
            max_event_batch_size: self.max_event_batch_size,
            enable_user_authentication: self.enable_user_authentication,
            webhooks,
        }
    }
}

impl Clone for App {
    fn clone(&self) -> (r: Self)
        ensures
            r@ == self@,
    {
        self.duplicate()
    }
}

impl AppView {
    /// An application without a name, without limits and without rights.
    pub open spec fn blank() -> AppView {
        AppView {
            id: ""@,
            key: ""@,
            secret: ""@,
            max_connections: 0,
            enable_client_messages: false,
            enabled: false,
            max_backend_events_per_second: None,
            max_client_events_per_second: 0,
            max_read_requests_per_second: None,
            max_presence_members_per_channel: None,
            max_presence_member_size_in_kb: None,
            max_channel_name_length: None,
            max_event_channels_at_once: None,
            max_event_name_length: None,
            max_event_payload_in_kb: None,
            max_event_batch_size: None,
            enable_user_authentication: None,
            webhooks: None,
        }
    }
}

impl Default for App {
    fn default() -> (r: Self)
        ensures
            r@ == AppView::blank(),
    {
        proof {
            reveal_strlit("");
        }
        App {
            id: String::new(),
            key: String::new(),
            secret: String::new(),
            max_connections: 0,
            enable_client_messages: false,
            enabled: false,
            max_backend_events_per_second: None,
            max_client_events_per_second: 0,
            max_read_requests_per_second: None,
            max_presence_members_per_channel: None,
            max_presence_member_size_in_kb: None,
            max_channel_name_length: None,
            max_event_channels_at_once: None,
            max_event_name_length: None,
            max_event_payload_in_kb: None,
            max_event_batch_size: None,
            enable_user_authentication: None,
            webhooks: None,
        }
    }
}

impl App {
    /// The webhooks of the application, where it has a list of them.
    pub fn webhooks(&self) -> (r: Option<&Vec<Webhook>>)
        ensures
            match r {
                Some(list) => self.webhooks == Some(*list),
                None => self.webhooks is None,
            },
    {
        match &self.webhooks {
            Some(list) => Some(list),
            None => None,
        }
    }
}

/// A number that a configuration writes as text: decimal digits, at most one `+` before them,
/// with a value that fits.
pub fn number_from_text(text: &str) -> (r: Option<u32>)
    ensures
        match r {
            Some(n) => crate::text::number_value(text@) == Some(n as nat),
            None => match crate::text::number_value(text@) {
                Some(n) => n > u32::MAX,
                None => true,
            },
        },
{
    match crate::text::parse_number(text, u32::MAX as u64) {
        Some(n) => Some(n as u32),
        None => None,
    }
}

/// A number that a configuration may leave out, and writes as text where it does not. The outer
/// option is empty where there is a text that is no number.
pub fn optional_number_from_text(text: Option<&str>) -> (r: Option<Option<u32>>)
    ensures
        match text {
            None => r == Some(None::<u32>),
            Some(t) => match r {
                Some(Some(n)) => crate::text::number_value(t@) == Some(n as nat),
                Some(None) => false,
                None => match crate::text::number_value(t@) {
                    Some(n) => n > u32::MAX,
                    None => true,
                },
            },
        },
{
    match text {
        None => Some(None),
        Some(t) => match number_from_text(t) {
            Some(n) => Some(Some(n)),
            None => None,
        },
    }
}

/// An application of which nothing is said has no name, no key, no secret, no rights, no limits and
/// no webhooks.
pub proof fn blank_application_has_nothing()
    ensures
        AppView::blank().id.len() == 0,
        AppView::blank().key.len() == 0,
        AppView::blank().secret.len() == 0,
        !AppView::blank().enabled,
        !AppView::blank().enable_client_messages,
        AppView::blank().max_connections == 0,
        AppView::blank().max_client_events_per_second == 0,
        AppView::blank().max_backend_events_per_second is None,
        AppView::blank().max_read_requests_per_second is None,
        AppView::blank().max_presence_members_per_channel is None,
        AppView::blank().max_presence_member_size_in_kb is None,
        AppView::blank().max_channel_name_length is None,
        AppView::blank().max_event_channels_at_once is None,
        AppView::blank().max_event_name_length is None,
        AppView::blank().max_event_payload_in_kb is None,
        AppView::blank().max_event_batch_size is None,
        AppView::blank().enable_user_authentication is None,
        AppView::blank().webhooks is None,
{
    reveal_strlit("");
}

} // verus!
