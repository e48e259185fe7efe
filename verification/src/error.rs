//! The errors of the server.

use vstd::prelude::*;

use crate::model::Duplicate;

verus! {

/// What can go wrong while the server handles a request.
#[derive(Debug)]
pub enum Error {
    /// No application has the key or id that was given.
    InvalidAppKey,
    /// No application has the key that a signature names.
    InvalidKey,
    /// The socket is not connected.
    ConnectionNotFound,
    /// A message could not be read.
    InvalidMessageFormat(String),
    /// The name of an event is missing or not allowed.
    InvalidEventName(String),
    /// A request is not authorized.
    AuthError(String),
    /// A channel refuses a request.
    ChannelError(String),
    /// A client event is refused, or failed.
    ClientEventError(String),
    /// A message could not be handed to a connection.
    ConnectionError(String),
    /// The Redis server failed.
    RedisError(String),
    /// A value could not be written or read as JSON.
    SerializationError(String),
    /// The cache failed.
    CacheError(String),
    /// The configuration is not usable.
    Config(String),
    /// A connection to a service failed.
    Connection(String),
    /// The queue failed.
    Queue(String),
    /// Anything else.
    Other(String),
}

/// An error by the characters of its message.
#[verifier::ext_equal]
pub enum ErrorView {
    InvalidAppKey,
    InvalidKey,
    ConnectionNotFound,
    InvalidMessageFormat(Seq<char>),
    InvalidEventName(Seq<char>),
    AuthError(Seq<char>),
    ChannelError(Seq<char>),
    ClientEventError(Seq<char>),
    ConnectionError(Seq<char>),
    RedisError(Seq<char>),
    SerializationError(Seq<char>),
    CacheError(Seq<char>),
    Config(Seq<char>),
    Connection(Seq<char>),
    Queue(Seq<char>),
    Other(Seq<char>),
}

impl View for Error {
    type V = ErrorView;

    open spec fn view(&self) -> ErrorView {
        match self {
            Error::InvalidAppKey => ErrorView::InvalidAppKey,
            Error::InvalidKey => ErrorView::InvalidKey,
            Error::ConnectionNotFound => ErrorView::ConnectionNotFound,
            Error::InvalidMessageFormat(m) => ErrorView::InvalidMessageFormat(m@),
            Error::InvalidEventName(m) => ErrorView::InvalidEventName(m@),
            Error::AuthError(m) => ErrorView::AuthError(m@),
            Error::ChannelError(m) => ErrorView::ChannelError(m@),
            Error::ClientEventError(m) => ErrorView::ClientEventError(m@),
            Error::ConnectionError(m) => ErrorView::ConnectionError(m@),
            Error::RedisError(m) => ErrorView::RedisError(m@),
            Error::SerializationError(m) => ErrorView::SerializationError(m@),
            Error::CacheError(m) => ErrorView::CacheError(m@),
            Error::Config(m) => ErrorView::Config(m@),
            Error::Connection(m) => ErrorView::Connection(m@),
            Error::Queue(m) => ErrorView::Queue(m@),
            Error::Other(m) => ErrorView::Other(m@),
        }
    }
}

impl Duplicate for Error {
    fn duplicate(&self) -> (r: Self) {
        match self {
            Error::InvalidAppKey => Error::InvalidAppKey,
            Error::InvalidKey => Error::InvalidKey,
            Error::ConnectionNotFound => Error::ConnectionNotFound,
            Error::InvalidMessageFormat(m) => Error::InvalidMessageFormat(m.clone()),
            Error::InvalidEventName(m) => Error::InvalidEventName(m.clone()),
            Error::AuthError(m) => Error::AuthError(m.clone()),
            Error::ChannelError(m) => Error::ChannelError(m.clone()),
            Error::ClientEventError(m) => Error::ClientEventError(m.clone()),
            Error::ConnectionError(m) => Error::ConnectionError(m.clone()),
            Error::RedisError(m) => Error::RedisError(m.clone()),
            Error::SerializationError(m) => Error::SerializationError(m.clone()),
            Error::CacheError(m) => Error::CacheError(m.clone()),
            Error::Config(m) => Error::Config(m.clone()),
            Error::Connection(m) => Error::Connection(m.clone()),
            Error::Queue(m) => Error::Queue(m.clone()),
            Error::Other(m) => Error::Other(m.clone()),
        }
    }
}

impl Clone for Error {
    fn clone(&self) -> (r: Self)
        ensures
            r@ == self@,
    {
        self.duplicate()
    }
}

/// A result of the server.
pub type Result<T> = std::result::Result<T, Error>;

/// A result by the views of its value and its error.
pub open spec fn outcome<T: View>(r: Result<T>) -> std::result::Result<T::V, ErrorView> {
    match r {
        Ok(v) => Ok(v@),
        Err(e) => Err(e@),
    }
}

} // verus!
