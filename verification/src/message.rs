//! What passes between the runtime and its handles.

use crate::buffer::content;
use crate::config::Transport;
use crate::error::{Error, ErrorView};
use crate::ids::{ApplicationError, EventId, ReturnCode};
use crate::net::SocketAddr;
use vstd::prelude::*;

verus! {

/// The end of a channel to a handle.
pub type ChannelId = u64;

/// An event that was received.
pub struct Event {
    /// The event.
    pub event_id: EventId,
    /// The payload.
    pub payload: bytes::Bytes,
}

/// What an [`Event`] says.
pub struct EventView {
    /// The raw identifier of the event.
    pub event_id: u16,
    /// The payload.
    pub payload: Seq<u8>,
}

impl View for Event {
    type V = EventView;

    open spec fn view(&self) -> EventView {
        EventView { event_id: self.event_id@, payload: content(self.payload) }
    }
}

impl Event {
    /// Another handle to the same event.
    pub fn share(&self) -> (r: Self)
        ensures
            r@ == self@,
    {
        Event { event_id: self.event_id, payload: crate::buffer::share(&self.payload) }
    }
}

/// The response to a method call.
pub struct Response {
    /// The return code.
    pub return_code: ReturnCode,
    /// The payload.
    pub payload: bytes::Bytes,
}

/// What a [`Response`] says.
pub struct ResponseView {
    /// The return code.
    pub return_code: ReturnCode,
    /// The payload.
    pub payload: Seq<u8>,
}

impl View for Response {
    type V = ResponseView;

    open spec fn view(&self) -> ResponseView {
        ResponseView { return_code: self.return_code, payload: content(self.payload) }
    }
}

impl Response {
    /// Whether the call succeeded.
    pub fn is_ok(&self) -> (r: bool)
        ensures
            r == (self.return_code is Okay),
    {
        self.return_code == ReturnCode::Okay
    }

    /// Whether the call failed.
    pub fn is_err(&self) -> (r: bool)
        ensures
            r == !(self.return_code is Okay),
    {
        self.return_code != ReturnCode::Okay
    }
}

/// Who called.
#[derive(Clone, Copy, PartialEq, Eq, Structural, Debug)]
pub struct ClientInfo {
    /// The client's address.
    pub address: SocketAddr,
    /// The transport that the client uses.
    pub transport: Transport,
}

/// A change that service discovery has observed.
#[derive(Clone, Copy, PartialEq, Eq, Structural, Debug)]
pub enum SdEvent {
    /// A service is offered.
    ServiceAvailable {
        /// The service.
        service_id: u16,
        /// The instance.
        instance_id: u16,
        /// The major version.
        major_version: u8,
        /// The minor version.
        minor_version: u32,
        /// The endpoint that is used.
        endpoint: SocketAddr,
        /// The lifetime of the offer, in seconds.
        ttl: u32,
    },
    /// A service is no longer offered.
    ServiceUnavailable {
        /// The service.
        service_id: u16,
        /// The instance.
        instance_id: u16,
    },
    /// An offer has outlived its lifetime.
    ServiceExpired {
        /// The service.
        service_id: u16,
        /// The instance.
        instance_id: u16,
    },
}

/// The answer to a search.
#[derive(Clone, Copy, PartialEq, Eq, Structural, Debug)]
pub enum ServiceAvailability {
    /// The service is offered.
    Available {
        /// The endpoint to use.
        endpoint: SocketAddr,
        /// The transport to use.
        transport: Transport,
        /// The instance that was found.
        instance_id: u16,
        /// The major version that was found.
        major_version: u8,
    },
}

/// A request to an offered service.
pub enum ServiceRequest {
    /// A method call; its answer goes to `response`.
    MethodCall {
        /// The method.
        method_id: u16,
        /// The payload.
        payload: bytes::Bytes,
        /// The client.
        client: SocketAddr,
        /// The transport.
        transport: Transport,
        /// Where the answer goes.
        response: ChannelId,
    },
    /// A method call without answer.
    FireForget {
        /// The method.
        method_id: u16,
        /// The payload.
        payload: bytes::Bytes,
        /// The client.
        client: SocketAddr,
        /// The transport.
        transport: Transport,
    },
    /// A client has subscribed.
    Subscribe {
        /// The eventgroup.
        eventgroup_id: u16,
        /// The client.
        client: SocketAddr,
        /// The transport.
        transport: Transport,
    },
    /// A client has unsubscribed.
    Unsubscribe {
        /// The eventgroup.
        eventgroup_id: u16,
        /// The client.
        client: SocketAddr,
        /// The transport.
        transport: Transport,
    },
}

/// What a [`ServiceRequest`] says.
pub enum ServiceRequestView {
    /// A method call.
    MethodCall {
        /// The method.
        method_id: u16,
        /// The payload.
        payload: Seq<u8>,
        /// The client.
        client: SocketAddr,
        /// The transport.
        transport: Transport,
        /// Where the answer goes.
        response: ChannelId,
    },
    /// A method call without answer.
    FireForget {
        /// The method.
        method_id: u16,
        /// The payload.
        payload: Seq<u8>,
        /// The client.
        client: SocketAddr,
        /// The transport.
        transport: Transport,
    },
    /// A client has subscribed.
    Subscribe {
        /// The eventgroup.
        eventgroup_id: u16,
        /// The client.
        client: SocketAddr,
        /// The transport.
        transport: Transport,
    },
    /// A client has unsubscribed.
    Unsubscribe {
        /// The eventgroup.
        eventgroup_id: u16,
        /// The client.
        client: SocketAddr,
        /// The transport.
        transport: Transport,
    },
}

impl View for ServiceRequest {
    type V = ServiceRequestView;

    open spec fn view(&self) -> ServiceRequestView {
        match *self {
            ServiceRequest::MethodCall { method_id, payload, client, transport, response } =>
                ServiceRequestView::MethodCall {
                    method_id,
                    payload: content(payload),
                    client,
                    transport,
                    response,
                },
            ServiceRequest::FireForget { method_id, payload, client, transport } =>
                ServiceRequestView::FireForget {
                    method_id,
                    payload: content(payload),
                    client,
                    transport,
                },
            ServiceRequest::Subscribe { eventgroup_id, client, transport } =>
                ServiceRequestView::Subscribe { eventgroup_id, client, transport },
            ServiceRequest::Unsubscribe { eventgroup_id, client, transport } =>
                ServiceRequestView::Unsubscribe { eventgroup_id, client, transport },
        }
    }
}

/// The answer of a service to a call.
pub enum Reply {
    /// It succeeded.
    Payload(bytes::Bytes),
    /// It was refused.
    Refused(ApplicationError),
}

/// What a [`Reply`] says.
pub enum ReplyView {
    /// It succeeded.
    Payload(Seq<u8>),
    /// It was refused.
    Refused(ApplicationError),
}

impl View for Reply {
    type V = ReplyView;

    open spec fn view(&self) -> ReplyView {
        match *self {
            Reply::Payload(data) => ReplyView::Payload(content(data)),
            Reply::Refused(error) => ReplyView::Refused(error),
        }
    }
}

/// A message to a handle.
pub enum Delivery {
    /// The answer to a search.
    Availability(ServiceAvailability),
    /// A request to an offered service.
    Request(ServiceRequest),
    /// An event of a subscription.
    Event(Event),
    /// The response to a method call.
    CallResult(Response),
    /// The outcome of a subscription: its identifier.
    Subscribed(Result<u64, Error>),
    /// The outcome of registering an event.
    Registered(Result<(), Error>),
    /// The outcome of an offer: where its requests arrive.
    Offered(Result<ChannelId, Error>),
    /// Whether an eventgroup has subscribers.
    HasSubscribers(bool),
}

/// What a [`Delivery`] says.
pub enum DeliveryView {
    /// The answer to a search.
    Availability(ServiceAvailability),
    /// A request to an offered service.
    Request(ServiceRequestView),
    /// An event of a subscription.
    Event(EventView),
    /// The response to a method call.
    CallResult(ResponseView),
    /// The outcome of a subscription.
    Subscribed(Result<u64, ErrorView>),
    /// The outcome of registering an event.
    Registered(Result<(), ErrorView>),
    /// The outcome of an offer.
    Offered(Result<ChannelId, ErrorView>),
    /// Whether an eventgroup has subscribers.
    HasSubscribers(bool),
}

/// What the outcome of an operation says.
pub open spec fn outcome<T>(r: Result<T, Error>) -> Result<T, ErrorView> {
    match r {
        Ok(v) => Ok(v),
        Err(e) => Err(e@),
    }
}

impl View for Delivery {
    type V = DeliveryView;

    open spec fn view(&self) -> DeliveryView {
        match *self {
            Delivery::Availability(a) => DeliveryView::Availability(a),
            Delivery::Request(r) => DeliveryView::Request(r@),
            Delivery::Event(e) => DeliveryView::Event(e@),
            Delivery::CallResult(r) => DeliveryView::CallResult(r@),
            Delivery::Subscribed(r) => DeliveryView::Subscribed(outcome(r)),
            Delivery::Registered(r) => DeliveryView::Registered(outcome(r)),
            Delivery::Offered(r) => DeliveryView::Offered(outcome(r)),
            Delivery::HasSubscribers(b) => DeliveryView::HasSubscribers(b),
        }
    }
}

} // verus!
