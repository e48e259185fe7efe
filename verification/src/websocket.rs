//! Connections: what the server knows of each, and the frames that wait to be written to it.

use vstd::prelude::*;

use crate::app::config::{App, AppView};
use crate::channel::types::{MemberView, PresenceMemberInfo};
use crate::error::{outcome, Error, ErrorView, Result};
use crate::json::{Json, JsonView};
use crate::model::{opt_view, views, Duplicate};
use crate::protocol::{Frame, FrameView};
use crate::table::{Dict, NameSet};
use crate::text::opt_text;

verus! {

/// The id of a connection.
#[derive(Debug)]
pub struct SocketId(pub String);

impl View for SocketId {
    type V = Seq<char>;

    open spec fn view(&self) -> Seq<char> {
        self.0@
    }
}

impl Duplicate for SocketId {
    fn duplicate(&self) -> (r: Self) {
        SocketId(self.0.clone())
    }
}

impl Clone for SocketId {
    fn clone(&self) -> (r: Self)
        ensures
            r@ == self@,
    {
        self.duplicate()
    }
}

/// What the server knows of a connection.
pub struct ConnectionState {
    /// The id of the connection.
    pub socket_id: SocketId,
    /// The application that the connection belongs to.
    pub app: Option<App>,
    /// The channels that the connection is subscribed to.
    pub subscribed_channels: NameSet,
    /// The user that joined the last presence channel over the connection.
    pub user_id: Option<String>,
    /// What the connection is known as on each presence channel.
    pub presence: Option<Dict<PresenceMemberInfo>>,
    /// The user that signed in over the connection.
    pub user: Option<Json>,
    /// When the last ping came in, in milliseconds.
    pub last_ping: u64,
}

/// What the server knows of a connection, by its view.
#[verifier::ext_equal]
pub struct StateView {
    pub socket_id: Seq<char>,
    pub app: Option<AppView>,
    pub subscribed_channels: Set<Seq<char>>,
    pub user_id: Option<Seq<char>>,
    pub presence: Option<Map<Seq<char>, MemberView>>,
    pub user: Option<JsonView>,
    pub last_ping: u64,
}

impl View for ConnectionState {
    type V = StateView;

    open spec fn view(&self) -> StateView {
        StateView {
            socket_id: self.socket_id@,
            app: opt_view(self.app),
            subscribed_channels: self.subscribed_channels@,
            user_id: opt_text(self.user_id),
            presence: opt_view(self.presence),
            user: opt_view(self.user),
            last_ping: self.last_ping,
        }
    }
}

impl StateView {
    /// A connection of which nothing is known but its id.
    pub open spec fn fresh(socket_id: Seq<char>) -> StateView {
        StateView {
            socket_id,
            app: None,
            subscribed_channels: Set::empty(),
            user_id: None,
            presence: None,
            user: None,
            last_ping: 0,
        }
    }

    /// The key of the application that the connection belongs to; empty where there is none.
    pub open spec fn app_key(self) -> Seq<char> {
        match self.app {
            Some(app) => app.key,
            None => Seq::empty(),
        }
    }

    /// What the connection is known as on a presence channel.
    pub open spec fn member_on(self, channel: Seq<char>) -> Option<MemberView> {
        match self.presence {
            Some(map) => if map.contains_key(channel) { Some(map[channel]) } else { None },
            None => None,
        }
    }
}

impl ConnectionState {
    /// A connection of which nothing is known but its id.
    pub fn new(socket_id: SocketId) -> (r: Self)
        ensures
            r@ == StateView::fresh(socket_id@),
    {
        ConnectionState {
            socket_id,
            app: None,
            subscribed_channels: NameSet::new(),
            user_id: None,
            presence: None,
            user: None,
            last_ping: 0,
        }
    }

    /// Notes that a ping came in at `now`.
    pub fn update_ping(&mut self, now: u64)
        ensures
            final(self)@ == (StateView { last_ping: now, ..old(self)@ }),
    {
        self.last_ping = now;
    }

    /// The key of the application that the connection belongs to; empty where there is none.
    pub fn get_app_key(&self) -> (r: String)
        ensures
            r@ == self@.app_key(),
    {
        match &self.app {
            Some(app) => app.key.clone(),
            None => {
                proof {
                    reveal_strlit("");
                }
                let none = String::new();
                assert(none@ =~= Seq::<char>::empty());
                none
            },
        }
    }
}

/// A connection: what is known of it, and the frames that wait to be written to its socket.
pub struct WebSocket {
    pub state: ConnectionState,
    /// Whether the writer of the socket still takes frames.
    pub open: bool,
    /// The frames that the writer has not taken yet, the oldest first.
    pub outbox: Vec<Frame>,
}

/// A connection by its view.
#[verifier::ext_equal]
pub struct ConnView {
    pub state: StateView,
    pub open: bool,
    pub outbox: Seq<FrameView>,
}

impl View for WebSocket {
    type V = ConnView;

    open spec fn view(&self) -> ConnView {
        ConnView { state: self.state@, open: self.open, outbox: views(self.outbox@) }
    }
}

/// What a connection whose writer is gone answers a frame with.
pub open spec fn writer_gone() -> ErrorView {
    ErrorView::ConnectionError("Failed to send message: channel closed"@)
}

impl ConnView {
    /// A new connection, with nothing to write.
    pub open spec fn fresh(socket_id: Seq<char>) -> ConnView {
        ConnView { state: StateView::fresh(socket_id), open: true, outbox: Seq::empty() }
    }

    /// The connection after it was handed a frame: an open one keeps it, at the end.
    pub open spec fn handed(self, frame: FrameView) -> ConnView {
        if self.open {
            ConnView { outbox: self.outbox.push(frame), ..self }
        } else {
            self
        }
    }
}

impl WebSocket {
    /// A new connection, with nothing to write.
    pub fn new(socket_id: SocketId) -> (r: Self)
        ensures
            r@ == ConnView::fresh(socket_id@),
    {
        let r = WebSocket { state: ConnectionState::new(socket_id), open: true, outbox: Vec::new() };
        assert(r@.outbox =~= Seq::<FrameView>::empty());
        r
    }

    /// Hands the connection a frame. A connection whose writer is gone refuses it.
    pub fn send(&mut self, frame: Frame) -> (r: Result<()>)
        ensures
            final(self)@ == old(self)@.handed(frame@),
            outcome(r) == if old(self).open { Ok(()) } else { Err(writer_gone()) },
    {
        if self.open {
            self.outbox.push(frame);
            assert(views(self.outbox@) =~= views(old(self).outbox@).push(frame@));
            Ok(())
        } else {
            Err(Error::ConnectionError("Failed to send message: channel closed".to_string()))
        }
    }

    /// Takes the frames that wait to be written, the oldest first.
    pub fn drain(&mut self) -> (r: Vec<Frame>)
        ensures
            views(r@) == old(self)@.outbox,
            final(self)@ == (ConnView { outbox: Seq::empty(), ..old(self)@ }),
    {
        let mut taken: Vec<Frame> = Vec::new();
        std::mem::swap(&mut taken, &mut self.outbox);
        assert(views(self.outbox@) =~= Seq::<FrameView>::empty());
        taken
    }

    /// Notes that the writer of the socket is gone.
    pub fn close(&mut self)
        ensures
            final(self)@ == (ConnView { open: false, ..old(self)@ }),
    {
        self.open = false;
    }
}

} // verus!
