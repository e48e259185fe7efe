//! What a manager of connections offers.

use vstd::prelude::*;

use crate::app::config::App;
use crate::channel::types::PresenceMemberInfo;
use crate::connection::redis_manager::Publication;
use crate::error::Result;
use crate::namespace::{Namespace, NamespaceView};
use crate::protocol::Outgoing;
use crate::table::{Dict, NameSet};
use crate::websocket::{SocketId, WebSocket};

verus! {

/// A manager of the connections of all applications.
pub trait ConnectionManager {
    /// The namespaces by the ids of the applications.
    spec fn spaces(&self) -> Map<Seq<char>, NamespaceView>;

    /// Whether the connections of a user can be asked for: every one that is noted exists.
    spec fn user_is_connected(&self, app_id: Seq<char>, user_id: Seq<char>) -> bool;

    /// Whether a connection can be asked what it is known as on presence channels.
    spec fn has_presence(&self, app_id: Seq<char>, socket_id: Seq<char>) -> bool;

    /// Prepares the manager.
    fn init(&mut self);

    /// The namespace of an application, to be changed in place.
    fn get_namespace(&mut self, app_id: &str) -> &mut Namespace;

    /// Takes a connection in; `app` is the outcome of the search for its application.
    fn add_connection(&mut self, socket_id: SocketId, app_id: &str, app: Result<Option<App>>) -> bool;

    /// A connection, to be changed in place.
    fn get_connection(&mut self, socket_id: &SocketId, app_id: &str) -> Option<&mut WebSocket>;

    /// Forgets a connection.
    fn remove_connection(&mut self, socket_id: &SocketId, app_id: &str) -> Option<WebSocket>;

    /// Hands a connection a message.
    fn send_message(&mut self, app_id: &str, socket_id: &SocketId, message: Outgoing) -> Result<()>;

    /// Hands a message to the connections on a channel, and gives what other servers have to be
    /// told.
    fn broadcast(
        &mut self,
        channel: &str,
        message: Outgoing,
        except: Option<&SocketId>,
        app_id: &str,
    ) -> Result<Publication>;

    /// The users on a presence channel.
    fn get_channel_members(&mut self, app_id: &str, channel: &str) -> Dict<PresenceMemberInfo>;

    /// The connections on a channel of any application.
    fn get_channel_sockets(&self, channel: &str) -> Vec<SocketId>;

    /// The connections that are subscribed to a channel.
    fn get_channel(&mut self, app_id: &str, channel: &str) -> NameSet;

    /// Removes a channel.
    fn remove_channel(&mut self, app_id: &str, channel: &str);

    /// Whether a connection is subscribed to a channel.
    fn is_in_channel(&mut self, app_id: &str, channel: &str, socket_id: &SocketId) -> bool;

    /// The connections of a user.
    fn get_user_connections(&mut self, user_id: &str, app_id: &str) -> NameSet
        requires
            old(self).user_is_connected(app_id@, user_id@),
    ;

    /// Takes a connection out of everything.
    fn cleanup_connection(&mut self, app_id: &str, socket_id: &SocketId) -> Option<WebSocket>;

    /// Takes every connection of a user out.
    fn terminate_connection(&mut self, app_id: &str, user_id: &str) -> Vec<WebSocket>
        requires
            old(self).user_is_connected(app_id@, user_id@),
    ;

    /// Adds a connection to a channel.
    fn add_channel_to_sockets(&mut self, app_id: &str, channel: &str, socket_id: &SocketId);

    /// Adds a connection to a channel.
    fn add_socket_to_channel(&mut self, app_id: &str, channel: &str, socket_id: &SocketId);

    /// Takes a connection off a channel.
    fn remove_socket_from_channel(&mut self, app_id: &str, channel: &str, socket_id: &SocketId) -> bool;

    /// What a connection is known as on a presence channel.
    fn get_presence_member(&mut self, app_id: &str, channel: &str, socket_id: &SocketId) -> Option<
        PresenceMemberInfo,
    >
        requires
            old(self).has_presence(app_id@, socket_id@),
    ;
}

} // verus!
