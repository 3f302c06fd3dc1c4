//! Error types.

use vstd::prelude::*;
use vstd::string::StringExecFns;

verus! {

/// What kind of I/O failure it was, as far as decisions depend on it.
#[derive(Clone, Copy, PartialEq, Eq, Structural, Debug)]
pub enum IoErrorKind {
    /// The address is in use.
    AddrInUse,
    /// The address is not available.
    AddrNotAvailable,
    /// Anything else.
    Other,
}

/// A network I/O failure.
#[derive(Debug)]
pub struct IoError {
    /// The kind of failure.
    pub kind: IoErrorKind,
    /// The operating system's description.
    pub message: String,
}

/// Configuration error.
#[derive(Debug)]
pub struct ConfigError {
    /// What is wrong.
    pub message: String,
}

impl ConfigError {
    /// An error with this message.
    pub fn new(message: &str) -> (r: Self)
        ensures
            r.message@ == message@,
    {
        ConfigError { message: String::from_str(message) }
    }
}

/// Protocol-level error.
#[derive(Debug)]
pub struct ProtocolError {
    /// What is wrong.
    pub message: String,
}

impl ProtocolError {
    /// An error with this message.
    pub fn new(message: &str) -> (r: Self)
        ensures
            r.message@ == message@,
    {
        ProtocolError { message: String::from_str(message) }
    }
}

/// All failures of the library's operations.
#[derive(Debug)]
pub enum Error {
    /// Network I/O error.
    Io(IoError),
    /// Configuration error.
    Config(ConfigError),
    /// Protocol-level error.
    Protocol(ProtocolError),
    /// The service is not available.
    ServiceUnavailable,
    /// Not subscribed to the eventgroup.
    NotSubscribed,
    /// The runtime has shut down.
    RuntimeShutdown,
    /// An event was dropped for want of room.
    ChannelFull,
    /// The service instance is already offered.
    AlreadyOffered,
    /// The server rejected the subscription.
    SubscriptionRejected,
    /// The service could not be found.
    NotAvailable,
    /// No preferred transport is offered.
    TransportMismatch,
}

/// What an [`Error`] says.
pub enum ErrorView {
    /// Network I/O error.
    Io(IoErrorKind, Seq<char>),
    /// Configuration error.
    Config(Seq<char>),
    /// Protocol-level error.
    Protocol(Seq<char>),
    /// The service is not available.
    ServiceUnavailable,
    /// Not subscribed to the eventgroup.
    NotSubscribed,
    /// The runtime has shut down.
    RuntimeShutdown,
    /// An event was dropped for want of room.
    ChannelFull,
    /// The service instance is already offered.
    AlreadyOffered,
    /// The server rejected the subscription.
    SubscriptionRejected,
    /// The service could not be found.
    NotAvailable,
    /// No preferred transport is offered.
    TransportMismatch,
}

impl View for Error {
    type V = ErrorView;

    open spec fn view(&self) -> ErrorView {
        match self {
            Error::Io(e) => ErrorView::Io(e.kind, e.message@),
            Error::Config(e) => ErrorView::Config(e.message@),
            Error::Protocol(e) => ErrorView::Protocol(e.message@),
            Error::ServiceUnavailable => ErrorView::ServiceUnavailable,
            Error::NotSubscribed => ErrorView::NotSubscribed,
            Error::RuntimeShutdown => ErrorView::RuntimeShutdown,
            Error::ChannelFull => ErrorView::ChannelFull,
            Error::AlreadyOffered => ErrorView::AlreadyOffered,
            Error::SubscriptionRejected => ErrorView::SubscriptionRejected,
            Error::NotAvailable => ErrorView::NotAvailable,
            Error::TransportMismatch => ErrorView::TransportMismatch,
        }
    }
}

impl ErrorView {
    /// The text that describes the error.
    pub open spec fn text(self) -> Seq<char> {
        match self {
            ErrorView::Io(_, message) => "I/O error: "@ + message,
            ErrorView::Config(message) => "Configuration error: "@ + message,
            ErrorView::Protocol(message) => "Protocol error: "@ + message,
            ErrorView::ServiceUnavailable => "Service unavailable"@,
            ErrorView::NotSubscribed => "Not subscribed to eventgroup"@,
            ErrorView::RuntimeShutdown => "SomeIp has shut down"@,
            ErrorView::ChannelFull => "Channel full, event dropped"@,
            ErrorView::AlreadyOffered => "Service/instance is already offered or bound"@,
            ErrorView::SubscriptionRejected => "Subscription rejected by server"@,
            ErrorView::NotAvailable => "Service could not be found"@,
            ErrorView::TransportMismatch => "No preferred transport is offered"@,
        }
    }
}

impl Error {
    /// The text that describes the error.
    pub fn text(&self) -> (r: String)
        ensures
            r@ == self@.text(),
    {
        match self {
            Error::Io(e) => String::from_str("I/O error: ").concat(e.message.as_str()),
            Error::Config(e) => String::from_str("Configuration error: ").concat(
                e.message.as_str(),
            ),
            Error::Protocol(e) => String::from_str("Protocol error: ").concat(e.message.as_str()),
            Error::ServiceUnavailable => String::from_str("Service unavailable"),
            Error::NotSubscribed => String::from_str("Not subscribed to eventgroup"),
            Error::RuntimeShutdown => String::from_str("SomeIp has shut down"),
            Error::ChannelFull => String::from_str("Channel full, event dropped"),
            Error::AlreadyOffered => String::from_str(
                "Service/instance is already offered or bound",
            ),
            Error::SubscriptionRejected => String::from_str("Subscription rejected by server"),
            Error::NotAvailable => String::from_str("Service could not be found"),
            Error::TransportMismatch => String::from_str("No preferred transport is offered"),
        }
    }

    /// Whether the failure is a port or address conflict, after which another local port
    /// may still work.
    pub fn is_port_conflict(&self) -> (r: bool)
        ensures
            r == self@.port_conflict(),
    {
        match self {
            Error::Io(e) => match e.kind {
                IoErrorKind::AddrInUse => true,
                IoErrorKind::AddrNotAvailable => true,
                IoErrorKind::Other => false,
            },
            _ => false,
        }
    }
}

impl ErrorView {
    /// An I/O failure on an address that is in use or not available.
    pub open spec fn port_conflict(self) -> bool {
        self matches ErrorView::Io(kind, _) && (kind == IoErrorKind::AddrInUse || kind
            == IoErrorKind::AddrNotAvailable)
    }
}

impl From<IoError> for Error {
    fn from(e: IoError) -> (r: Self) {
        Error::Io(e)
    }
}

impl vstd::std_specs::convert::FromSpecImpl<IoError> for Error {
    open spec fn obeys_from_spec() -> bool {
        true
    }

    open spec fn from_spec(e: IoError) -> Error {
        Error::Io(e)
    }
}

} // verus!
