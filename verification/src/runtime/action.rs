//! What the runtime asks its surroundings to do.

use crate::buffer::content;
use crate::config::Transport;
use crate::discovery::{SdMessage, SdMessageView};
use crate::message::{
    ChannelId, Delivery, DeliveryView, SdEvent, ServiceAvailability, ServiceRequest,
    ServiceRequestView,
};
use crate::net::{IpAddr, SocketAddr};
use crate::runtime::state::ServiceKey;
use vstd::prelude::*;

verus! {

/// The sending end of an offered service's socket.
#[derive(Clone, Copy, PartialEq, Eq, Structural, Debug)]
pub enum RpcTransportSender {
    /// A UDP socket.
    Udp(ChannelId),
    /// A TCP server.
    Tcp(ChannelId),
}

/// What is needed to answer a request once the service has decided.
#[derive(Clone, Copy, PartialEq, Eq, Structural, Debug)]
pub struct PendingServerResponse {
    /// The service.
    pub service_id: u16,
    /// The instance.
    pub instance_id: u16,
    /// The method.
    pub method_id: u16,
    /// The client.
    pub client_id: u16,
    /// The client's session.
    pub session_id: u16,
    /// The interface version.
    pub interface_version: u8,
    /// Where the answer goes.
    pub client_addr: SocketAddr,
    /// Whether errors are answered with an exception message.
    pub uses_exception: bool,
    /// The socket on which the request came.
    pub rpc_transport: RpcTransportSender,
}

/// Something to do.
#[allow(inconsistent_fields)]
pub enum Action {
    /// Send a service discovery message.
    SendSd {
        /// The message.
        message: SdMessage,
        /// Where to.
        target: SocketAddr,
    },
    /// Answer the searches that a service matches.
    NotifyFound {
        /// The service that was found.
        key: ServiceKey,
        /// The answer.
        availability: ServiceAvailability,
    },
    /// Send a message as a client.
    SendClientMessage {
        /// The bytes.
        data: bytes::Bytes,
        /// Where to.
        target: SocketAddr,
        /// The transport.
        transport: Transport,
    },
    /// Send a message as a server, from the service's own socket.
    SendServerMessage {
        /// The service.
        service_key: ServiceKey,
        /// The bytes.
        data: bytes::Bytes,
        /// Where to.
        target: SocketAddr,
        /// The transport.
        transport: Transport,
    },
    /// Answer a request once its answer arrives.
    TrackServerResponse {
        /// What the answer needs.
        context: PendingServerResponse,
        /// Where the answer arrives.
        receiver: ChannelId,
    },
    /// Tell all monitors.
    EmitSdEvent {
        /// What was observed.
        event: SdEvent,
    },
    /// Close the TCP connections to a host that has rebooted.
    ResetPeerTcpConnections {
        /// The host.
        peer: IpAddr,
    },
    /// Drop the subscriptions from and to a host that has rebooted.
    ExpirePeerSubscriptions {
        /// The host.
        peer: IpAddr,
    },
    /// Hand a message to a handle, whether or not the handle takes it.
    Deliver {
        /// The handle.
        to: ChannelId,
        /// The message.
        message: Delivery,
    },
    /// Hand a request to a service, and say whether it was taken.
    DeliverRequest {
        /// The service's handle.
        to: ChannelId,
        /// The request.
        request: ServiceRequest,
        /// What its answer needs, where an answer can be sent.
        context: Option<PendingServerResponse>,
        /// Where the answer arrives.
        reply: ChannelId,
    },
}

/// What an [`Action`] says.
#[allow(inconsistent_fields)]
pub enum ActionView {
    /// Send a service discovery message.
    SendSd {
        /// The message.
        message: SdMessageView,
        /// Where to.
        target: SocketAddr,
    },
    /// Answer the searches that a service matches.
    NotifyFound {
        /// The service that was found.
        key: ServiceKey,
        /// The answer.
        availability: ServiceAvailability,
    },
    /// Send a message as a client.
    SendClientMessage {
        /// The bytes.
        data: Seq<u8>,
        /// Where to.
        target: SocketAddr,
        /// The transport.
        transport: Transport,
    },
    /// Send a message as a server.
    SendServerMessage {
        /// The service.
        service_key: ServiceKey,
        /// The bytes.
        data: Seq<u8>,
        /// Where to.
        target: SocketAddr,
        /// The transport.
        transport: Transport,
    },
    /// Answer a request once its answer arrives.
    TrackServerResponse {
        /// What the answer needs.
        context: PendingServerResponse,
        /// Where the answer arrives.
        receiver: ChannelId,
    },
    /// Tell all monitors.
    EmitSdEvent {
        /// What was observed.
        event: SdEvent,
    },
    /// Close the TCP connections to a host.
    ResetPeerTcpConnections {
        /// The host.
        peer: IpAddr,
    },
    /// Drop the subscriptions from and to a host.
    ExpirePeerSubscriptions {
        /// The host.
        peer: IpAddr,
    },
    /// Hand a message to a handle.
    Deliver {
        /// The handle.
        to: ChannelId,
        /// The message.
        message: DeliveryView,
    },
    /// Hand a request to a service, and say whether it was taken.
    DeliverRequest {
        /// The service's handle.
        to: ChannelId,
        /// The request.
        request: ServiceRequestView,
        /// What its answer needs.
        context: Option<PendingServerResponse>,
        /// Where the answer arrives.
        reply: ChannelId,
    },
}

impl View for Action {
    type V = ActionView;

    open spec fn view(&self) -> ActionView {
        match *self {
            Action::SendSd { message, target } => ActionView::SendSd { message: message@, target },
            Action::NotifyFound { key, availability } => ActionView::NotifyFound {
                key,
                availability,
            },
            Action::SendClientMessage { data, target, transport } =>
                ActionView::SendClientMessage { data: content(data), target, transport },
            Action::SendServerMessage { service_key, data, target, transport } =>
                ActionView::SendServerMessage {
                    service_key,
                    data: content(data),
                    target,
                    transport,
                },
            Action::TrackServerResponse { context, receiver } =>
                ActionView::TrackServerResponse { context, receiver },
            Action::EmitSdEvent { event } => ActionView::EmitSdEvent { event },
            Action::ResetPeerTcpConnections { peer } => ActionView::ResetPeerTcpConnections {
                peer,
            },
            Action::ExpirePeerSubscriptions { peer } => ActionView::ExpirePeerSubscriptions {
                peer,
            },
            Action::Deliver { to, message } => ActionView::Deliver { to, message: message@ },
            Action::DeliverRequest { to, request, context, reply } =>
                ActionView::DeliverRequest { to, request: request@, context, reply },
        }
    }
}

/// What a list of actions says.
pub open spec fn views(actions: Seq<Action>) -> Seq<ActionView> {
    actions.map_values(|a: Action| a@)
}

/// Appends an action.
pub(crate) fn push(actions: &mut Vec<Action>, action: Action)
    ensures
        views(final(actions)@) == views(old(actions)@).push(action@),
{
    actions.push(action);
    assert(views(actions@) =~= views(old(actions)@).push(action@));
}

/// What there is to do, where there is anything to do.
pub open spec fn given(actions: Option<Vec<Action>>) -> Seq<ActionView> {
    match actions {
        Some(a) => views(a@),
        None => Seq::empty(),
    }
}

/// The actions, where there are any.
pub(crate) fn unless_empty(actions: Vec<Action>) -> (r: Option<Vec<Action>>)
    ensures
        given(r) == views(actions@),
        r is None <==> views(actions@).len() == 0,
{
    if actions.len() == 0 {
        assert(views(actions@) =~= Seq::<ActionView>::empty());
        None
    } else {
        Some(actions)
    }
}

} // verus!
