//! What handles ask of the runtime.

use crate::buffer::content;
use crate::config::{OfferConfig, Transport, TransportSelection};
use crate::ids::{InstanceId, MajorVersion, ServiceId};
use crate::message::{ChannelId, Delivery, DeliveryView};
use crate::net::SocketAddr;
use crate::runtime::action::{given, push, unless_empty, views, Action, ActionView};
use crate::runtime::client::{
    after_call, after_find, after_unsubscribe, find_action, handle_call, handle_find,
    handle_fire_and_forget, handle_stop_find, handle_unsubscribe,
};
use crate::runtime::rpc::{
    can_be_sent, fire_and_forget_bytes, notification_bytes, payload_fits, request_bytes,
};
use crate::runtime::server::{
    after_stop_offer_command, group_of, handle_has_subscribers, handle_notify,
    handle_notify_static, udp_targets,
    handle_register_event, handle_stop_offer, is_subscribed, notify_actions, notify_targets,
    register_refusal, stop_offer_command_actions,
};
use crate::runtime::state::{RuntimeState, ServiceKey, StateView};
use crate::table::without;
use vstd::prelude::*;

verus! {

/// What a handle asks of the runtime.
#[allow(inconsistent_fields)]
pub enum Command {
    /// Search a service.
    Find {
        /// The service.
        service_id: ServiceId,
        /// The instance.
        instance_id: InstanceId,
        /// The major version.
        major_version: MajorVersion,
        /// Where the answers go.
        notify: ChannelId,
    },
    /// End a search.
    StopFind {
        /// The service.
        service_id: ServiceId,
        /// The instance.
        instance_id: InstanceId,
        /// The major version.
        major_version: MajorVersion,
    },
    /// Offer a service.
    Offer {
        /// The service.
        service_id: ServiceId,
        /// The instance.
        instance_id: InstanceId,
        /// The major version.
        major_version: u8,
        /// The minor version.
        minor_version: u32,
        /// The transports.
        offer_config: OfferConfig,
        /// Where requests go.
        requests: ChannelId,
        /// Where the outcome goes.
        response: ChannelId,
    },
    /// Withdraw an offer.
    StopOffer {
        /// The service.
        service_id: ServiceId,
        /// The instance.
        instance_id: InstanceId,
        /// The major version.
        major_version: u8,
    },
    /// Call a method.
    Call {
        /// The service.
        service_id: ServiceId,
        /// The method.
        method_id: u16,
        /// The payload.
        payload: bytes::Bytes,
        /// Where the response goes.
        response: ChannelId,
        /// The server.
        target_endpoint: SocketAddr,
        /// The transport.
        target_transport: Transport,
    },
    /// Call a method without awaiting a response.
    FireAndForget {
        /// The service.
        service_id: ServiceId,
        /// The method.
        method_id: u16,
        /// The payload.
        payload: bytes::Bytes,
        /// The server.
        target_endpoint: SocketAddr,
        /// The transport.
        target_transport: Transport,
    },
    /// Subscribe to eventgroups.
    Subscribe {
        /// The service.
        service_id: ServiceId,
        /// The instance.
        instance_id: InstanceId,
        /// The major version.
        major_version: u8,
        /// The eventgroups.
        eventgroup_ids: Vec<u16>,
        /// Where events go.
        events: ChannelId,
        /// Where the outcome goes.
        response: ChannelId,
        /// The server's endpoint, the transport and the local port, where they were selected.
        selection: Option<TransportSelection>,
    },
    /// End a subscription to an eventgroup.
    Unsubscribe {
        /// The service.
        service_id: ServiceId,
        /// The instance.
        instance_id: InstanceId,
        /// The major version.
        major_version: u8,
        /// The eventgroup.
        eventgroup_id: u16,
        /// The subscription.
        subscription_id: u64,
    },
    /// Register an event of an offered service.
    RegisterEvent {
        /// The service.
        service_id: ServiceId,
        /// The instance.
        instance_id: InstanceId,
        /// The major version.
        major_version: u8,
        /// The event.
        event_id: u16,
        /// Where the outcome goes.
        response: ChannelId,
    },
    /// Sends an event to subscribers that are known without subscription.
    NotifyStatic {
        /// The service.
        service_id: ServiceId,
        /// The instance.
        instance_id: InstanceId,
        /// The major version.
        major_version: u8,
        /// The eventgroup.
        eventgroup_id: u16,
        /// The event.
        event_id: u16,
        /// The payload.
        payload: bytes::Bytes,
        /// Where it goes.
        targets: Vec<SocketAddr>,
    },
    /// Send an event.
    Notify {
        /// The service.
        service_id: ServiceId,
        /// The instance.
        instance_id: InstanceId,
        /// The major version.
        major_version: u8,
        /// The event's eventgroups.
        eventgroup_ids: Vec<u16>,
        /// The event.
        event_id: u16,
        /// The payload.
        payload: bytes::Bytes,
    },
    /// Ask whether an eventgroup of an offered service has subscribers.
    HasSubscribers {
        /// The service.
        service_id: ServiceId,
        /// The instance.
        instance_id: InstanceId,
        /// The major version.
        major_version: u8,
        /// The eventgroup.
        eventgroup_id: u16,
        /// Where the answer goes.
        response: ChannelId,
    },
    /// Observe service discovery.
    MonitorSd {
        /// Where observations go.
        events: ChannelId,
    },
    /// Shut the runtime down.
    Shutdown,
}

/// The state and the actions after a command. A payload that is too long to be sent is not
/// sent. Offers, subscriptions and the shutdown are left to the event loop.
pub open spec fn command_handled(s: StateView, cmd: Command, now: u64) -> (
    StateView,
    Seq<ActionView>,
) {
    match cmd {
        Command::Find { service_id, instance_id, major_version, notify } => {
            let key = ServiceKey::of(service_id, instance_id, major_version.raw());
            (after_find(s, key, notify, now), seq![find_action(s, key, notify)])
        },
        Command::StopFind { service_id, instance_id, major_version } => (
            StateView {
                find_requests: without(
                    s.find_requests,
                    ServiceKey::of(service_id, instance_id, major_version.raw()),
                ),
                ..s
            },
            Seq::empty(),
        ),
        Command::StopOffer { service_id, instance_id, major_version } => {
            let key = ServiceKey::of(service_id, instance_id, major_version);
            (after_stop_offer_command(s, key), stop_offer_command_actions(s, key))
        },
        Command::Call {
            service_id,
            method_id,
            payload,
            response,
            target_endpoint,
            target_transport,
        } => if payload_fits(content(payload).len() as int) {
            (
                after_call(s, response),
                seq![
                    ActionView::SendClientMessage {
                        data: request_bytes(
                            service_id@,
                            method_id,
                            s.client_id,
                            s.payload_session_id,
                            1,
                            content(payload),
                        ),
                        target: target_endpoint,
                        transport: target_transport,
                    },
                ],
            )
        } else {
            (s, Seq::empty())
        },
        Command::FireAndForget {
            service_id,
            method_id,
            payload,
            target_endpoint,
            target_transport,
        } => if payload_fits(content(payload).len() as int) {
            (
                s,
                seq![
                    ActionView::SendClientMessage {
                        data: fire_and_forget_bytes(
                            service_id@,
                            method_id,
                            s.client_id,
                            0,
                            1,
                            content(payload),
                        ),
                        target: target_endpoint,
                        transport: target_transport,
                    },
                ],
            )
        } else {
            (s, Seq::empty())
        },
        Command::Unsubscribe {
            service_id,
            instance_id,
            major_version,
            eventgroup_id,
            subscription_id,
        } => (
            after_unsubscribe(
                s,
                ServiceKey::of(service_id, instance_id, major_version),
                eventgroup_id,
                subscription_id,
                now,
            ),
            Seq::empty(),
        ),
        Command::RegisterEvent { service_id, instance_id, major_version, event_id, response } => {
            let key = ServiceKey::of(service_id, instance_id, major_version);
            match register_refusal(s, key, event_id) {
                Some(e) => (
                    s,
                    seq![
                        ActionView::Deliver {
                            to: response,
                            message: DeliveryView::Registered(Err(e)),
                        },
                    ],
                ),
                None => (
                    StateView {
                        registered_events: s.registered_events.push((key, event_id)),
                        ..s
                    },
                    seq![
                        ActionView::Deliver {
                            to: response,
                            message: DeliveryView::Registered(Ok(())),
                        },
                    ],
                ),
            }
        },
        Command::Notify {
            service_id,
            instance_id,
            major_version,
            eventgroup_ids,
            event_id,
            payload,
        } => if payload_fits(content(payload).len() as int) {
            let key = ServiceKey::of(service_id, instance_id, major_version);
            (
                s,
                notify_actions(
                    key,
                    notification_bytes(
                        service_id@,
                        event_id,
                        s.client_id,
                        0,
                        1,
                        content(payload),
                    ),
                    notify_targets(
                        s.server_subscribers,
                        key,
                        eventgroup_ids@,
                        eventgroup_ids@.len() as int,
                    ),
                ),
            )
        } else {
            (s, Seq::empty())
        },
        Command::NotifyStatic {
            service_id,
            instance_id,
            major_version,
            eventgroup_id: _,
            event_id,
            payload,
            targets,
        } => if payload_fits(content(payload).len() as int) {
            (
                s,
                notify_actions(
                    ServiceKey::of(service_id, instance_id, major_version),
                    notification_bytes(
                        service_id@,
                        event_id,
                        s.client_id,
                        0,
                        1,
                        content(payload),
                    ),
                    udp_targets(targets@),
                ),
            )
        } else {
            (s, Seq::empty())
        },
        Command::HasSubscribers {
            service_id,
            instance_id,
            major_version,
            eventgroup_id,
            response,
        } => (
            s,
            seq![
                ActionView::Deliver {
                    to: response,
                    message: DeliveryView::HasSubscribers(
                        is_subscribed(
                            s.server_subscribers,
                            group_of(
                                ServiceKey::of(service_id, instance_id, major_version),
                                eventgroup_id,
                            ),
                        ),
                    ),
                },
            ],
        ),
        Command::MonitorSd { events } => (
            StateView { sd_monitors: s.sd_monitors.push(events), ..s },
            Seq::empty(),
        ),
        Command::Subscribe { .. } | Command::Offer { .. } | Command::Shutdown => (s, Seq::empty()),
    }
}

/// Handles a command.
pub fn handle_command(cmd: Command, state: &mut RuntimeState, now: u64) -> (r: Option<Vec<Action>>)
    requires
        old(state)@.wf(),
    ensures
        (final(state)@, given(r)) == command_handled(old(state)@, cmd, now),
        r is None <==> given(r).len() == 0,
        final(state)@.wf(),
{
    let ghost s = state@;
    let mut actions: Vec<Action> = Vec::new();
    assert(views(actions@) =~= Seq::<ActionView>::empty());
    match cmd {
        Command::Find { service_id, instance_id, major_version, notify } => {
            handle_find(
                service_id,
                instance_id,
                major_version,
                notify,
                state,
                &mut actions,
                now,
            );
        },
        Command::StopFind { service_id, instance_id, major_version } => {
            handle_stop_find(service_id, instance_id, major_version, state);
        },
        Command::StopOffer { service_id, instance_id, major_version } => {
            handle_stop_offer(service_id, instance_id, major_version, state, &mut actions);
        },
        Command::Call {
            service_id,
            method_id,
            payload,
            response,
            target_endpoint,
            target_transport,
        } => {
            if can_be_sent(&payload) {
                handle_call(
                    service_id,
                    method_id,
                    &payload,
                    response,
                    target_endpoint,
                    target_transport,
                    state,
                    &mut actions,
                );
            }
        },
        Command::FireAndForget {
            service_id,
            method_id,
            payload,
            target_endpoint,
            target_transport,
        } => {
            if can_be_sent(&payload) {
                handle_fire_and_forget(
                    service_id,
                    method_id,
                    &payload,
                    target_endpoint,
                    target_transport,
                    state,
                    &mut actions,
                );
            }
        },
        Command::Unsubscribe {
            service_id,
            instance_id,
            major_version,
            eventgroup_id,
            subscription_id,
        } => {
            handle_unsubscribe(
                service_id,
                instance_id,
                major_version,
                eventgroup_id,
                subscription_id,
                state,
                now,
            );
        },
        Command::RegisterEvent { service_id, instance_id, major_version, event_id, response } => {
            let result = handle_register_event(
                service_id,
                instance_id,
                major_version,
                event_id,
                state,
            );
            push(
                &mut actions,
                Action::Deliver { to: response, message: Delivery::Registered(result) },
            );
        },
        Command::Notify {
            service_id,
            instance_id,
            major_version,
            eventgroup_ids,
            event_id,
            payload,
        } => {
            if can_be_sent(&payload) {
                handle_notify(
                    service_id,
                    instance_id,
                    major_version,
                    eventgroup_ids.as_slice(),
                    event_id,
                    &payload,
                    state,
                    &mut actions,
                );
            }
        },
        Command::NotifyStatic {
            service_id,
            instance_id,
            major_version,
            eventgroup_id: _,
            event_id,
            payload,
            targets,
        } => {
            if can_be_sent(&payload) {
                handle_notify_static(
                    service_id,
                    instance_id,
                    major_version,
                    event_id,
                    &payload,
                    targets.as_slice(),
                    state,
                    &mut actions,
                );
            }
        },
        Command::HasSubscribers {
            service_id,
            instance_id,
            major_version,
            eventgroup_id,
            response,
        } => {
            let answer: bool = handle_has_subscribers(
                service_id,
                instance_id,
                major_version,
                eventgroup_id,
                state,
            );
            push(
                &mut actions,
                Action::Deliver { to: response, message: Delivery::HasSubscribers(answer) },
            );
        },
        Command::MonitorSd { events } => {
            state.sd_monitors.push(events);
            assert(state@ =~= (StateView { sd_monitors: s.sd_monitors.push(events), ..s }));
        },
        Command::Subscribe { .. } | Command::Offer { .. } | Command::Shutdown => {},
    }
    assert(views(actions@) =~= command_handled(s, cmd, now).1);
    unless_empty(actions)
}

} // verus!
