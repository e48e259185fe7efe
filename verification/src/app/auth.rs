//! Signing in: whether a connection may act for a user.

use vstd::prelude::*;

use crate::app::config::{App, AppView};
use crate::app::memory_app_manager::{app_with_id, MemoryAppManager};
use crate::error::{outcome, Error, ErrorView, Result};
use crate::text::join;
use crate::token::{secure_compare, signature, Token};
use crate::websocket::SocketId;

verus! {

/// A request to authorize a connection for a channel.
#[derive(Debug)]
pub struct ChannelAuth {
    pub channel_name: String,
    pub socket_id: String,
    pub user_data: Option<String>,
}

/// The answer to such a request.
#[derive(Debug)]
pub struct AuthValidationResult {
    pub is_valid: bool,
    pub signature: String,
}

/// Checks the signatures with which connections sign users in.
pub struct AuthValidator<'a> {
    app_manager: &'a MemoryAppManager,
}

/// What a connection signs to sign a user in.
pub open spec fn sign_in_text(socket_id: Seq<char>, user_data: Seq<char>) -> Seq<char> {
    socket_id + "::user::"@ + user_data
}

/// The signature that signs a user in.
pub open spec fn sign_in_signature(
    app: AppView,
    socket_id: Seq<char>,
    user_data: Seq<char>,
) -> Seq<char> {
    signature(app.secret, sign_in_text(socket_id, user_data))
}

/// Whether `auth` signs a user in, and if that cannot be said, why.
pub open spec fn sign_in_verdict(
    apps: Map<Seq<char>, AppView>,
    socket_id: Seq<char>,
    app_key: Seq<char>,
    user_data: Seq<char>,
    auth: Seq<char>,
) -> std::result::Result<bool, ErrorView> {
    match app_with_id(apps, app_key) {
        Some(app) => Ok(auth == sign_in_signature(app, socket_id, user_data)),
        None => Err(ErrorView::InvalidKey),
    }
}

/// The signature that an application's own secret gives signs a user in, and no other text does.
pub proof fn own_signature_signs_in(
    apps: Map<Seq<char>, AppView>,
    socket_id: Seq<char>,
    app_key: Seq<char>,
    user_data: Seq<char>,
    auth: Seq<char>,
)
    requires
        app_with_id(apps, app_key) is Some,
    ensures
        sign_in_verdict(
            apps,
            socket_id,
            app_key,
            user_data,
            sign_in_signature(apps[app_key], socket_id, user_data),
        ) == Ok::<bool, ErrorView>(true),
        auth != sign_in_signature(apps[app_key], socket_id, user_data) ==> sign_in_verdict(
            apps,
            socket_id,
            app_key,
            user_data,
            auth,
        ) == Ok::<bool, ErrorView>(false),
{
}

impl<'a> AuthValidator<'a> {
    /// The applications whose secrets are used.
    pub closed spec fn apps(&self) -> Map<Seq<char>, AppView> {
        self.app_manager@
    }

    /// A validator for the applications of a registry.
    pub fn new(app_manager: &'a MemoryAppManager) -> (r: Self)
        ensures
            r.apps() == app_manager@,
    {
        AuthValidator { app_manager }
    }

    /// Whether `auth` is the signature with which a connection signs a user in.
    pub fn validate_channel_auth(
        &self,
        socket_id: &SocketId,
        app_key: &str,
        user_data: &str,
        auth: &str,
    ) -> (r: Result<bool>)
        ensures
            outcome(r) == sign_in_verdict(
                self.apps(),
                socket_id@,
                app_key@,
                user_data@,
                auth@,
            ),
    {
        match self.app_manager.find(app_key) {
            Some(app) => Ok(
                self.sign_in_token_is_valid(socket_id.0.as_str(), user_data, auth, app),
            ),
            None => Err(Error::InvalidKey),
        }
    }

    /// Whether `expected_signature` signs a user in.
    pub fn sign_in_token_is_valid(
        &self,
        socket_id: &str,
        user_data: &str,
        expected_signature: &str,
        app_config: &App,
    ) -> (r: bool)
        ensures
            r == (expected_signature@ == sign_in_signature(app_config@, socket_id@, user_data@)),
    {
        let token = self.sing_in_token_for_user_data(socket_id, user_data, app_config);
        secure_compare(token.as_str(), expected_signature)
    }

    /// The signature that signs a user in.
    pub fn sing_in_token_for_user_data(
        &self,
        socket_id: &str,
        user_data: &str,
        app_config: &App,
    ) -> (r: String)
        ensures
            r@ == sign_in_signature(app_config@, socket_id@, user_data@),
    {
        let decoded_string = join(socket_id, "::user::", user_data);
        let token = Token::new(app_config.key.clone(), app_config.secret.clone());
        token.sign(decoded_string)
    }
}

} // verus!
