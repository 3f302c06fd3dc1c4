//! Subscribing beside the event loop.
//!
//! Here a subscription runs on its own while the event loop goes on: what it needs of the
//! state is taken beforehand, and what it changes is handed back as an update, which the
//! event loop applies.

use crate::config::Transport;
use crate::discovery::{SdMessage, SdMessageView};
use crate::error::{ConfigError, Error, ErrorView, IoError};
use crate::ids::{InstanceId, ServiceId};
use crate::message::ChannelId;
use crate::net::{IpAddr, SocketAddr};
use crate::runtime::action::{views, Action};
use crate::runtime::sd::{build_subscribe_message_multi, subscribe_message};
use crate::runtime::sd_client::{longer_ttl, subscription_ttl};
use crate::runtime::state::{RuntimeState, ServiceKey, StateView};
use crate::runtime::subscribe::{
    not_yet_awaited, push_refusal, refusal_actions, smallest_unused, smallest_unused_slot,
    subscription_tracked, track_subscription, RequestView, SubscribeRequest,
};
use std::collections::HashSet;
use vstd::prelude::*;

verus! {

/// What was known of a service when the subscription started.
#[derive(Clone, Copy, Debug)]
pub struct ServiceSnapshot {
    /// The server's discovery endpoint.
    pub sd_endpoint: SocketAddr,
    /// The lifetime of the offer, in seconds.
    pub offer_ttl: u32,
    /// The TCP endpoint.
    pub tcp_endpoint: Option<SocketAddr>,
    /// The endpoint and transport to use.
    pub method_endpoint: Option<(SocketAddr, Transport)>,
}

/// A change of the state that a subscription has prepared.
pub struct SubscribeUpdate {
    /// The subscription.
    pub request: SubscribeRequest,
    /// Where events arrive.
    pub endpoint: SocketAddr,
    /// The connection's slot.
    pub conn_key: u64,
    /// The transport.
    pub transport: Transport,
    /// The message that subscribes.
    pub message: SdMessage,
}

/// What a [`SubscribeUpdate`] says.
pub struct UpdateView {
    /// The subscription.
    pub request: RequestView,
    /// Where events arrive.
    pub endpoint: SocketAddr,
    /// The connection's slot.
    pub conn_key: u64,
    /// The transport.
    pub transport: Transport,
    /// The message that subscribes.
    pub message: SdMessageView,
}

impl View for SubscribeUpdate {
    type V = UpdateView;

    open spec fn view(&self) -> UpdateView {
        UpdateView {
            request: self.request@,
            endpoint: self.endpoint,
            conn_key: self.conn_key,
            transport: self.transport,
            message: self.message@,
        }
    }
}

/// How a subscription beside the event loop ended.
pub enum SubscribeStateUpdate {
    /// It changes the state.
    Success {
        /// The change.
        update: SubscribeUpdate,
    },
    /// It failed.
    Failed {
        /// Where the failure goes.
        response: ChannelId,
        /// The failure.
        error: Error,
    },
}

/// What a [`SubscribeStateUpdate`] says.
pub enum StateUpdateView {
    /// It changes the state.
    Success {
        /// The change.
        update: UpdateView,
    },
    /// It failed.
    Failed {
        /// Where the failure goes.
        response: ChannelId,
        /// The failure.
        error: ErrorView,
    },
}

impl View for SubscribeStateUpdate {
    type V = StateUpdateView;

    open spec fn view(&self) -> StateUpdateView {
        match *self {
            SubscribeStateUpdate::Success { update } => StateUpdateView::Success {
                update: update@,
            },
            SubscribeStateUpdate::Failed { response, error } => StateUpdateView::Failed {
                response,
                error: error@,
            },
        }
    }
}

/// A subscription that needs a TCP connection.
pub struct ConnectFirst {
    /// The subscription.
    pub request: SubscribeRequest,
    /// The server.
    pub endpoint: SocketAddr,
    /// The connection's slot.
    pub conn_key: u64,
    /// The flags of the message that subscribes.
    pub sd_flags: u8,
}

/// What a [`ConnectFirst`] says.
pub struct ConnectView {
    /// The subscription.
    pub request: RequestView,
    /// The server.
    pub endpoint: SocketAddr,
    /// The connection's slot.
    pub conn_key: u64,
    /// The flags of the message that subscribes.
    pub sd_flags: u8,
}

impl View for ConnectFirst {
    type V = ConnectView;

    open spec fn view(&self) -> ConnectView {
        ConnectView {
            request: self.request@,
            endpoint: self.endpoint,
            conn_key: self.conn_key,
            sd_flags: self.sd_flags,
        }
    }
}

/// What a subscription beside the event loop does next.
pub enum ConcurrentStep {
    /// It has ended.
    Finished(SubscribeStateUpdate),
    /// It needs a TCP connection.
    Connect(ConnectFirst),
}

/// What a [`ConcurrentStep`] says.
pub enum ConcurrentView {
    /// It has ended.
    Finished(StateUpdateView),
    /// It needs a TCP connection.
    Connect(ConnectView),
}

impl View for ConcurrentStep {
    type V = ConcurrentView;

    open spec fn view(&self) -> ConcurrentView {
        match *self {
            ConcurrentStep::Finished(u) => ConcurrentView::Finished(u@),
            ConcurrentStep::Connect(c) => ConcurrentView::Connect(c@),
        }
    }
}

/// The change that a subscription with an endpoint prepares: one message subscribes to all
/// its eventgroups.
pub open spec fn prepared_update(
    request: RequestView,
    endpoint: SocketAddr,
    conn_key: u64,
    transport: Transport,
    sd_flags: u8,
) -> UpdateView {
    UpdateView {
        request,
        endpoint,
        conn_key,
        transport,
        message: subscribe_message(
            request.key,
            request.eventgroup_ids,
            endpoint.ip,
            endpoint.port,
            sd_flags,
            request.ttl,
            transport,
        ),
    }
}

fn prepare_update(
    request: SubscribeRequest,
    endpoint: SocketAddr,
    conn_key: u64,
    transport: Transport,
    sd_flags: u8,
) -> (r: SubscribeUpdate)
    ensures
        r@ == prepared_update(
            request@,
            endpoint,
            conn_key,
            transport,
            sd_flags,
        ),
{
    let message = build_subscribe_message_multi(
        request.key.service_id,
        request.key.instance_id,
        request.key.major_version,
        request.eventgroup_ids.as_slice(),
        endpoint,
        endpoint.port,
        sd_flags,
        request.ttl,
        transport,
    );
    SubscribeUpdate { request, endpoint, conn_key, transport, message }
}

/// What a subscription beside the event loop does first. It is made for the longer of the
/// configured lifetime and the offer's. UDP events arrive on the request port; TCP needs a connection, in the smallest slot that the service does not use.
pub open spec fn concurrent_step(
    key: ServiceKey,
    eventgroup_ids: Seq<u16>,
    events: ChannelId,
    response: ChannelId,
    discovered: Option<ServiceSnapshot>,
    subscription_id: u64,
    client_rpc_endpoint: SocketAddr,
    advertised_ip: Option<IpAddr>,
    sd_flags: u8,
    subscribe_ttl: u32,
    used_conn_keys: Set<u64>,
) -> ConcurrentView {
    if eventgroup_ids.len() == 0 {
        failed(response, ErrorView::Config("At least one eventgroup must be specified"@))
    } else {
        match discovered {
            None => failed(response, ErrorView::ServiceUnavailable),
            Some(d) => {
                let request = RequestView {
                    key,
                    eventgroup_ids,
                    events,
                    response,
                    subscription_id,
                    sd_endpoint: d.sd_endpoint,
                    ttl: subscription_ttl(subscribe_ttl, d.offer_ttl),
                    chosen: None,
                };
                match d.method_endpoint {
                    None => failed(
                        response,
                        ErrorView::Config("Server offers no compatible transport endpoints"@),
                    ),
                    Some((_, Transport::Tcp)) => match d.tcp_endpoint {
                        None => failed(
                            response,
                            ErrorView::Config("TCP transport selected but no TCP endpoint"@),
                        ),
                        Some(endpoint) => ConcurrentView::Connect(
                            ConnectView {
                                request,
                                endpoint,
                                conn_key: smallest_unused(used_conn_keys),
                                sd_flags,
                            },
                        ),
                    },
                    Some((_, Transport::Udp)) => match advertised_ip {
                        None => failed(
                            response,
                            ErrorView::Config("No advertised IP configured for subscriptions"@),
                        ),
                        Some(ip) => ConcurrentView::Finished(
                            StateUpdateView::Success {
                                update: prepared_update(
                                    request,
                                    SocketAddr { ip, port: client_rpc_endpoint.port },
                                    0,
                                    Transport::Udp,
                                    sd_flags,
                                ),
                            },
                        ),
                    },
                }
            },
        }
    }
}

/// The subscription has failed.
pub open spec fn failed(response: ChannelId, error: ErrorView) -> ConcurrentView {
    ConcurrentView::Finished(StateUpdateView::Failed { response, error })
}

fn fail(response: ChannelId, error: Error) -> (r: ConcurrentStep)
    ensures
        r@ == failed(response, error@),
{
    ConcurrentStep::Finished(SubscribeStateUpdate::Failed { response, error })
}

/// Subscribes to eventgroups beside the event loop.
pub fn handle_subscribe_command_concurrent(
    service_id: ServiceId,
    instance_id: InstanceId,
    major_version: u8,
    eventgroup_ids: Vec<u16>,
    events: ChannelId,
    response: ChannelId,
    discovered: Option<ServiceSnapshot>,
    subscription_id: u64,
    client_rpc_endpoint: SocketAddr,
    advertised_ip: Option<IpAddr>,
    sd_flags: u8,
    subscribe_ttl: u32,
    used_conn_keys: &HashSet<u64>,
) -> (step: ConcurrentStep)
    ensures
        step@ == concurrent_step(
            ServiceKey::of(service_id, instance_id, major_version),
            eventgroup_ids@,
            events,
            response,
            discovered,
            subscription_id,
            client_rpc_endpoint,
            advertised_ip,
            sd_flags,
            subscribe_ttl,
            used_conn_keys@,
        ),
{
    if eventgroup_ids.len() == 0 {
        return fail(
            response,
            Error::Config(ConfigError::new("At least one eventgroup must be specified")),
        );
    }
    let key = ServiceKey::new(service_id, instance_id, major_version);
    let snapshot = match discovered {
        Some(snapshot) => snapshot,
        None => {
            return fail(response, Error::ServiceUnavailable);
        },
    };
    let request = SubscribeRequest {
        key,
        eventgroup_ids,
        events,
        response,
        subscription_id,
        sd_endpoint: snapshot.sd_endpoint,
        ttl: longer_ttl(subscribe_ttl, snapshot.offer_ttl),
        chosen: None,
    };
    match snapshot.method_endpoint {
        None => fail(
            response,
            Error::Config(ConfigError::new("Server offers no compatible transport endpoints")),
        ),
        Some((_, Transport::Tcp)) => match snapshot.tcp_endpoint {
            None => fail(
                response,
                Error::Config(ConfigError::new("TCP transport selected but no TCP endpoint")),
            ),
            Some(endpoint) => {
                let conn_key: u64 = smallest_unused_slot(used_conn_keys);
                ConcurrentStep::Connect(
                    ConnectFirst { request, endpoint, conn_key, sd_flags },
                )
            },
        },
        Some((_, Transport::Udp)) => match advertised_ip {
            None => fail(
                response,
                Error::Config(ConfigError::new("No advertised IP configured for subscriptions")),
            ),
            Some(ip) => {
                let update = prepare_update(
                    request,
                    SocketAddr::new(ip, client_rpc_endpoint.port),
                    0,
                    Transport::Udp,
                    sd_flags,
                );
                ConcurrentStep::Finished(SubscribeStateUpdate::Success { update })
            },
        },
    }
}

/// Goes on with a subscription whose TCP connection was opened, at a local address, or not.
pub fn resume_concurrent(connect: ConnectFirst, opened: Result<SocketAddr, IoError>) -> (r:
    SubscribeStateUpdate)
    ensures
        r@ == (match opened {
            Ok(local) => StateUpdateView::Success {
                update: prepared_update(
                    connect@.request,
                    local,
                    connect.conn_key,
                    Transport::Tcp,
                    connect.sd_flags,
                ),
            },
            Err(e) => StateUpdateView::Failed {
                response: connect.request.response,
                error: ErrorView::Io(e.kind, e.message@),
            },
        }),
{
    match opened {
        Ok(local) => {
            let update = prepare_update(
                connect.request,
                local,
                connect.conn_key,
                Transport::Tcp,
                connect.sd_flags,
            );
            SubscribeStateUpdate::Success { update }
        },
        Err(e) => SubscribeStateUpdate::Failed {
            response: connect.request.response,
            error: Error::Io(e),
        },
    }
}

/// The state after a subscription's change was applied: the message goes out unless every
/// eventgroup awaits an answer already.
pub open spec fn after_update(s: StateView, u: UpdateView, now: u64) -> StateView {
    let r = u.request;
    let registered = if u.transport == Transport::Tcp {
        s.port_registered(u.endpoint.port, r.key.service_id, r.key.instance_id)
    } else {
        s
    };
    let t = subscription_tracked(registered, r, u.endpoint, false, u.conn_key);
    if not_yet_awaited(s.pending_subscriptions, r, r.eventgroup_ids.len() as int).len() > 0 {
        t.queued(u.message, r.sd_endpoint, now)
    } else {
        t
    }
}

/// Applies what a subscription beside the event loop has prepared.
pub fn apply_subscribe_update(
    update: SubscribeStateUpdate,
    state: &mut RuntimeState,
    actions: &mut Vec<Action>,
    now: u64,
)
    requires
        old(state)@.wf(),
    ensures
        final(state)@ == (match update@ {
            StateUpdateView::Success { update } => after_update(old(state)@, update, now),
            StateUpdateView::Failed { .. } => old(state)@,
        }),
        views(final(actions)@) == (match update@ {
            StateUpdateView::Success { .. } => views(old(actions)@),
            StateUpdateView::Failed { response, error } => views(old(actions)@) + refusal_actions(
                response,
                Some(error),
            ),
        }),
        final(state)@.wf(),
{
    match update {
        SubscribeStateUpdate::Failed { response, error } => {
            push_refusal(actions, response, error);
        },
        SubscribeStateUpdate::Success { update } => {
            let key = update.request.key;
            if update.transport == Transport::Tcp {
                state.register_subscription_endpoint(
                    update.endpoint.port,
                    key.service_id,
                    key.instance_id,
                );
            }
            let fresh = track_subscription(
                &update.request,
                update.endpoint,
                false,
                update.conn_key,
                state,
            );
            if fresh.len() > 0 {
                state.queue_unicast_sd(update.message, update.request.sd_endpoint, now);
            }
        },
    }
}

} // verus!
