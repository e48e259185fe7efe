//! What a registry of applications offers.

use vstd::prelude::*;

use crate::app::config::App;
use crate::error::Result;
use crate::websocket::SocketId;

verus! {

/// A registry of applications.
pub trait AppManager {
    /// Prepares the registry.
    fn init(&mut self) -> Result<()>;

    /// Registers an application.
    fn register_app(&mut self, config: App) -> Result<()>;

    /// Puts another configuration in place of that of an application.
    fn update_app(&mut self, config: App) -> Result<()>;

    /// Removes an application.
    fn remove_app(&mut self, app_id: &str) -> Result<()>;

    /// All applications.
    fn get_apps(&self) -> Result<Vec<App>>;

    /// Whether there is an application with this id.
    fn validate_key(&self, app_id: &str) -> Result<bool>;

    /// The application with this key.
    fn get_app_by_key(&self, key: &str) -> Result<Option<App>>;

    /// The application with this id.
    fn get_app(&self, app_id: &str) -> Result<Option<App>>;

    /// Whether `signature` is that of `body` under the secret of an application.
    fn validate_signature(&self, app_id: &str, signature: &str, body: &str) -> Result<bool>;

    /// The signature of `payload` under `secret`.
    fn sign_payload(&self, secret: &str, payload: &str) -> Result<String>;

    /// Whether a channel may have this name in an application.
    fn validate_channel_name(&self, app_id: &str, channel: &str) -> Result<()>;

    /// Whether clients of the application with this key may send events.
    fn can_handle_client_events(&self, app_key: &str) -> Result<bool>;

    /// Whether `auth` authorizes a connection.
    fn validate_user_auth(&self, socket_id: &SocketId, auth: &str) -> Result<bool>;
}

} // verus!
