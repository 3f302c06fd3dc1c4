//! What a client asks of the runtime, and what arrives for clients.

use crate::buffer::{as_slice, content};
use crate::config::{Transport, DEFAULT_FIND_REPETITIONS};
use crate::ids::{return_code_of, EventId, InstanceId, MajorVersion, ReturnCode, ServiceId};
use crate::message::{
    ChannelId, Delivery, DeliveryView, Event, EventView, Response, ResponseView,
    ServiceAvailability,
};
use crate::net::{IpAddr, SocketAddr};
use crate::runtime::action::{push, views, Action, ActionView};
use crate::runtime::rpc::{
    build_fire_and_forget, build_request, fire_and_forget_bytes, payload_fits, request_bytes,
};
use crate::runtime::sd::{
    build_find_message, build_unsubscribe_message, find_message, subscribe_message,
};
use crate::runtime::sd_client::{reachable_ip, transport_for};
use crate::runtime::state::{
    next_session, CallKey, ClientSubscription, DiscoveredService, FindRequest, PendingCall,
    RuntimeState, ServiceKey, StateView, SubscriberKey,
};
use crate::table::{lookup, put, without};
use crate::wire::{Header, MessageType};
use vstd::prelude::*;
use vstd::slice::slice_subrange;

verus! {

/// The address to name in endpoint options: the configured one, or else that of a socket
/// which names one.
pub fn get_endpoint_ip(state: &RuntimeState) -> (r: Option<IpAddr>)
    ensures
        r == reachable_ip(state@),
{
    if state.config.advertised_ip.is_some() {
        state.config.advertised_ip
    } else if !state.local_endpoint.ip.is_unspecified() {
        Some(state.local_endpoint.ip)
    } else if !state.client_rpc_endpoint.ip.is_unspecified() {
        Some(state.client_rpc_endpoint.ip)
    } else {
        None
    }
}

/// The first service from position `i` on that a search matches.
pub open spec fn first_match(
    discovered: Seq<(ServiceKey, DiscoveredService)>,
    key: ServiceKey,
    i: int,
) -> Option<(ServiceKey, DiscoveredService)>
    decreases discovered.len() - i,
{
    if i < 0 || i >= discovered.len() {
        None
    } else if discovered[i].0.matching(key) {
        Some(discovered[i])
    } else {
        first_match(discovered, key, i + 1)
    }
}

/// The answer to a search that a known service gives at once.
pub open spec fn known_availability(s: StateView, key: ServiceKey) -> Option<ServiceAvailability> {
    match first_match(s.discovered, key, 0) {
        Some((k, d)) => match d.endpoint(s.config.preferred() == Transport::Tcp) {
            Some((endpoint, transport)) => Some(
                ServiceAvailability::Available {
                    endpoint,
                    transport,
                    instance_id: k.instance_id,
                    major_version: k.major_version,
                },
            ),
            None => None,
        },
        None => None,
    }
}

/// The state after a search was asked for: it is under way, unless a known service answers.
pub open spec fn after_find(s: StateView, key: ServiceKey, notify: ChannelId, now: u64) -> StateView {
    match known_availability(s, key) {
        Some(_) => s,
        None => StateView {
            find_requests: put(
                s.find_requests,
                key,
                FindRequest { notify, repetitions_left: DEFAULT_FIND_REPETITIONS, last_find: now },
            ),
            ..s
        },
    }
}

/// What a search does: a known service answers it, or else it is sent to the group.
pub open spec fn find_action(s: StateView, key: ServiceKey, notify: ChannelId) -> ActionView {
    match known_availability(s, key) {
        Some(a) => ActionView::Deliver { to: notify, message: DeliveryView::Availability(a) },
        None => ActionView::SendSd {
            message: find_message(key, s.flags(false), s.config.find_ttl),
            target: s.config.multicast_target(),
        },
    }
}

fn find_known(state: &RuntimeState, key: ServiceKey) -> (r: Option<ServiceAvailability>)
    ensures
        r == known_availability(state@, key),
{
    let prefer_tcp: bool = state.config.preferred_transport() == Transport::Tcp;
    let mut i: usize = 0;
    while i < state.discovered.len()
        invariant
            0 <= i <= state@.discovered.len(),
            prefer_tcp == (state@.config.preferred() == Transport::Tcp),
            first_match(state@.discovered, key, 0) == first_match(
                state@.discovered,
                key,
                i as int,
            ),
        decreases state@.discovered.len() - i,
    {
        let k = state.discovered.key_at(i);
        if k.matches(key) {
            return match state.discovered.value_at(i).method_endpoint(prefer_tcp) {
                Some((endpoint, transport)) => Some(
                    ServiceAvailability::Available {
                        endpoint,
                        transport,
                        instance_id: k.instance_id,
                        major_version: k.major_version,
                    },
                ),
                None => None,
            };
        }
        i += 1;
    }
    None
}

/// Searches a service.
pub fn handle_find(
    service_id: ServiceId,
    instance_id: InstanceId,
    major_version: MajorVersion,
    notify: ChannelId,
    state: &mut RuntimeState,
    actions: &mut Vec<Action>,
    now: u64,
)
    requires
        old(state)@.wf(),
    ensures
        final(state)@ == after_find(
            old(state)@,
            ServiceKey::of(service_id, instance_id, major_version.raw()),
            notify,
            now,
        ),
        views(final(actions)@) == views(old(actions)@).push(
            find_action(
                old(state)@,
                ServiceKey::of(service_id, instance_id, major_version.raw()),
                notify,
            ),
        ),
        final(state)@.wf(),
{
    let ghost s = state@;
    let key = ServiceKey::new(service_id, instance_id, major_version.value());
    match find_known(state, key) {
        Some(availability) => {
            push(
                actions,
                Action::Deliver { to: notify, message: Delivery::Availability(availability) },
            );
        },
        None => {
            state.find_requests.insert(
                key,
                FindRequest { notify, repetitions_left: DEFAULT_FIND_REPETITIONS, last_find: now },
            );
            let message = build_find_message(
                service_id.value(),
                instance_id.value(),
                major_version.value(),
                state.sd_flags(false),
                state.config.find_ttl,
            );
            push(
                actions,
                Action::SendSd { message, target: state.config.sd_multicast_addr() },
            );
        },
    }
    assert(state@ =~= after_find(s, key, notify, now));
}

/// Ends a search.
pub fn handle_stop_find(
    service_id: ServiceId,
    instance_id: InstanceId,
    major_version: MajorVersion,
    state: &mut RuntimeState,
)
    requires
        old(state)@.wf(),
    ensures
        final(state)@ == (StateView {
            find_requests: without(
                old(state)@.find_requests,
                ServiceKey::of(service_id, instance_id, major_version.raw()),
            ),
            ..old(state)@
        }),
        final(state)@.wf(),
{
    let ghost s = state@;
    let key = ServiceKey::new(service_id, instance_id, major_version.value());
    let _ = state.find_requests.remove(&key);
    assert(state@ =~= (StateView { find_requests: without(s.find_requests, key), ..s }));
}

/// The state after a call was made: its response is awaited under the session that it used.
pub open spec fn after_call(s: StateView, response: ChannelId) -> StateView {
    StateView {
        payload_session_id: next_session(s.payload_session_id),
        pending_calls: put(
            s.pending_calls,
            CallKey { client_id: s.client_id, session_id: s.payload_session_id },
            PendingCall { response },
        ),
        ..s
    }
}

/// Calls a method.
pub fn handle_call(
    service_id: ServiceId,
    method_id: u16,
    payload: &bytes::Bytes,
    response: ChannelId,
    target_endpoint: SocketAddr,
    target_transport: Transport,
    state: &mut RuntimeState,
    actions: &mut Vec<Action>,
)
    requires
        old(state)@.wf(),
        payload_fits(content(*payload).len() as int),
    ensures
        final(state)@ == after_call(old(state)@, response),
        views(final(actions)@) == views(old(actions)@).push(
            ActionView::SendClientMessage {
                data: request_bytes(
                    service_id@,
                    method_id,
                    old(state)@.client_id,
                    old(state)@.payload_session_id,
                    1,
                    content(*payload),
                ),
                target: target_endpoint,
                transport: target_transport,
            },
        ),
        final(state)@.wf(),
{
    let ghost s = state@;
    let session_id: u16 = state.next_payload_session_id();
    let client_id: u16 = state.client_id;
    let data = build_request(
        service_id.value(),
        method_id,
        client_id,
        session_id,
        1,
        as_slice(payload),
    );
    state.pending_calls.insert(CallKey { client_id, session_id }, PendingCall { response });
    push(
        actions,
        Action::SendClientMessage { data, target: target_endpoint, transport: target_transport },
    );
    assert(state@ =~= after_call(s, response));
}

/// Calls a method without awaiting a response; such a call uses session 0.
pub fn handle_fire_and_forget(
    service_id: ServiceId,
    method_id: u16,
    payload: &bytes::Bytes,
    target_endpoint: SocketAddr,
    target_transport: Transport,
    state: &RuntimeState,
    actions: &mut Vec<Action>,
)
    requires
        payload_fits(content(*payload).len() as int),
    ensures
        views(final(actions)@) == views(old(actions)@).push(
            ActionView::SendClientMessage {
                data: fire_and_forget_bytes(
                    service_id@,
                    method_id,
                    state@.client_id,
                    0,
                    1,
                    content(*payload),
                ),
                target: target_endpoint,
                transport: target_transport,
            },
        ),
{
    let data = build_fire_and_forget(
        service_id.value(),
        method_id,
        state.client_id,
        0,
        1,
        as_slice(payload),
    );
    push(
        actions,
        Action::SendClientMessage { data, target: target_endpoint, transport: target_transport },
    );
}

/// A subscription of a handle to one eventgroup.
pub open spec fn is_subscription(
    c: ClientSubscription,
    key: ServiceKey,
    eventgroup_id: u16,
    subscription_id: u64,
) -> bool {
    c.service == key && c.subscription_id == subscription_id && c.eventgroup_id == eventgroup_id
}

/// Wants all but a handle's subscription to one eventgroup.
pub open spec fn not_subscription(key: ServiceKey, eventgroup_id: u16, subscription_id: u64) -> spec_fn(
    ClientSubscription,
) -> bool {
    |c: ClientSubscription| !is_subscription(c, key, eventgroup_id, subscription_id)
}

/// The first of the subscriptions from position `i` on that is meant.
pub open spec fn subscription_meant(
    subs: Seq<ClientSubscription>,
    key: ServiceKey,
    eventgroup_id: u16,
    subscription_id: u64,
    i: int,
) -> Option<ClientSubscription>
    decreases subs.len() - i,
{
    if i < 0 || i >= subs.len() {
        None
    } else if is_subscription(subs[i], key, eventgroup_id, subscription_id) {
        Some(subs[i])
    } else {
        subscription_meant(subs, key, eventgroup_id, subscription_id, i + 1)
    }
}

/// A subscription to the service receives events on the port.
pub open spec fn port_in_use(subs: Seq<ClientSubscription>, key: ServiceKey, port: u16) -> bool {
    exists|i: int|
        0 <= i < subs.len() && (#[trigger] subs[i]).service == key && subs[i].local_endpoint.port
            == port
}

/// A subscription to the eventgroup exists.
pub open spec fn eventgroup_in_use(
    subs: Seq<ClientSubscription>,
    key: ServiceKey,
    eventgroup_id: u16,
) -> bool {
    exists|i: int|
        0 <= i < subs.len() && (#[trigger] subs[i]).service == key && subs[i].eventgroup_id
            == eventgroup_id
}

/// The state without a handle's subscription to one eventgroup: its port is given up where
/// no other subscription to the service uses it.
pub open spec fn subscription_removed(
    s: StateView,
    key: ServiceKey,
    eventgroup_id: u16,
    subscription_id: u64,
) -> StateView {
    let subs = s.subscriptions.filter(not_subscription(key, eventgroup_id, subscription_id));
    let t = StateView { subscriptions: subs, ..s };
    match subscription_meant(s.subscriptions, key, eventgroup_id, subscription_id, 0) {
        Some(c) => if port_in_use(subs, key, c.local_endpoint.port) {
            t
        } else {
            t.port_unregistered(c.local_endpoint.port, key.service_id, key.instance_id)
        },
        None => t,
    }
}

/// The message that withdraws a subscription, and where it goes: where the service is known
/// and this host reachable.
pub open spec fn withdrawal(s: StateView, c: ClientSubscription) -> Option<
    (crate::discovery::SdMessageView, SocketAddr),
> {
    match lookup(s.discovered, c.service) {
        Some(d) => match (
            d.endpoint(s.config.preferred() == Transport::Tcp),
            reachable_ip(s),
        ) {
            (Some((_, used)), Some(ip)) => Some(
                (
                    subscribe_message(
                        c.service,
                        seq![c.eventgroup_id],
                        ip,
                        c.local_endpoint.port,
                        s.flags(true),
                        0,
                        transport_for(c, used),
                    ),
                    d.sd_endpoint,
                ),
            ),
            _ => None,
        },
        None => None,
    }
}

/// The state after a handle's subscription to one eventgroup has ended: the server hears of
/// it when no other handle is subscribed to the eventgroup.
pub open spec fn after_unsubscribe(
    s: StateView,
    key: ServiceKey,
    eventgroup_id: u16,
    subscription_id: u64,
    now: u64,
) -> StateView {
    let t = subscription_removed(s, key, eventgroup_id, subscription_id);
    match subscription_meant(s.subscriptions, key, eventgroup_id, subscription_id, 0) {
        Some(c) => if eventgroup_in_use(t.subscriptions, key, eventgroup_id) {
            t
        } else {
            match withdrawal(s, c) {
                Some((message, target)) => t.queued(message, target, now),
                None => t,
            }
        },
        None => t,
    }
}

fn find_subscription(
    state: &RuntimeState,
    key: ServiceKey,
    eventgroup_id: u16,
    subscription_id: u64,
) -> (r: Option<ClientSubscription>)
    ensures
        r == subscription_meant(
            state@.subscriptions,
            key,
            eventgroup_id,
            subscription_id,
            0,
        ),
        r matches Some(c) ==> is_subscription(c, key, eventgroup_id, subscription_id),
{
    let mut i: usize = 0;
    while i < state.subscriptions.len()
        invariant
            0 <= i <= state@.subscriptions.len(),
            subscription_meant(state@.subscriptions, key, eventgroup_id, subscription_id, 0)
                == subscription_meant(
                state@.subscriptions,
                key,
                eventgroup_id,
                subscription_id,
                i as int,
            ),
        decreases state@.subscriptions.len() - i,
    {
        let c = state.subscriptions[i];
        if c.service == key && c.subscription_id == subscription_id && c.eventgroup_id
            == eventgroup_id {
            return Some(c);
        }
        i += 1;
    }
    None
}

/// Ends a handle's subscription to one eventgroup.
pub fn handle_unsubscribe(
    service_id: ServiceId,
    instance_id: InstanceId,
    major_version: u8,
    eventgroup_id: u16,
    subscription_id: u64,
    state: &mut RuntimeState,
    now: u64,
)
    requires
        old(state)@.wf(),
    ensures
        final(state)@ == after_unsubscribe(
            old(state)@,
            ServiceKey::of(service_id, instance_id, major_version),
            eventgroup_id,
            subscription_id,
            now,
        ),
        final(state)@.wf(),
{
    let ghost s = state@;
    let key = ServiceKey::new(service_id, instance_id, major_version);
    let removed = find_subscription(state, key, eventgroup_id, subscription_id);
    let kept = |c: ClientSubscription| -> (b: bool)
        ensures
            b == !is_subscription(c, key, eventgroup_id, subscription_id),
        {
            !(c.service == key && c.subscription_id == subscription_id && c.eventgroup_id
                == eventgroup_id)
        };
    crate::rows::keep(
        &mut state.subscriptions,
        kept,
        Ghost(not_subscription(key, eventgroup_id, subscription_id)),
    );
    let sub = match removed {
        Some(sub) => sub,
        None => {
            assert(state@ =~= after_unsubscribe(s, key, eventgroup_id, subscription_id, now));
            return;
        },
    };
    let port: u16 = sub.local_endpoint.port;
    let on_port = |c: ClientSubscription| -> (b: bool)
        ensures
            b == (c.service == key && c.local_endpoint.port == port),
        { c.service == key && c.local_endpoint.port == port };
    let port_still_in_use: bool = crate::rows::any(
        &state.subscriptions,
        on_port,
        Ghost(|c: ClientSubscription| c.service == key && c.local_endpoint.port == port),
    );
    if !port_still_in_use {
        state.unregister_subscription_endpoint(port, service_id.value(), instance_id.value());
    }
    assert(state@ =~= subscription_removed(s, key, eventgroup_id, subscription_id));
    let in_group = |c: ClientSubscription| -> (b: bool)
        ensures
            b == (c.service == key && c.eventgroup_id == eventgroup_id),
        { c.service == key && c.eventgroup_id == eventgroup_id };
    if crate::rows::any(
        &state.subscriptions,
        in_group,
        Ghost(|c: ClientSubscription| c.service == key && c.eventgroup_id == eventgroup_id),
    ) {
        return;
    }
    let (transport, sd_endpoint) = match state.discovered.get(&key) {
        Some(discovered) => {
            let prefer_tcp: bool = state.config.preferred_transport() == Transport::Tcp;
            match discovered.method_endpoint(prefer_tcp) {
                Some((_, used)) => (
                    match sub.chosen {
                        Some(chosen) => chosen,
                        None => used,
                    },
                    discovered.sd_endpoint,
                ),
                None => {
                    return;
                },
            }
        },
        None => {
            return;
        },
    };
    let ip = match get_endpoint_ip(state) {
        Some(ip) => ip,
        None => {
            return;
        },
    };
    let message = build_unsubscribe_message(
        service_id.value(),
        instance_id.value(),
        major_version,
        eventgroup_id,
        SocketAddr::new(ip, port),
        port,
        state.sd_flags(true),
        transport,
    );
    state.queue_unicast_sd(message, sd_endpoint, now);
}

/// The state after a response has arrived: its call no longer awaits one.
pub open spec fn after_response(s: StateView, header: Header) -> StateView {
    StateView {
        pending_calls: without(
            s.pending_calls,
            CallKey { client_id: header.client_id, session_id: header.session_id },
        ),
        ..s
    }
}

/// What a response does: it goes to the call that awaits it, if one does.
pub open spec fn response_actions(s: StateView, header: Header, payload: Seq<u8>) -> Seq<
    ActionView,
> {
    match lookup(
        s.pending_calls,
        CallKey { client_id: header.client_id, session_id: header.session_id },
    ) {
        Some(pending) => seq![
            ActionView::Deliver {
                to: pending.response,
                message: DeliveryView::CallResult(
                    ResponseView { return_code: return_code_of(header.return_code), payload },
                ),
            },
        ],
        None => Seq::empty(),
    }
}

/// Handles a response.
pub fn handle_incoming_response(
    header: &Header,
    payload: bytes::Bytes,
    state: &mut RuntimeState,
    actions: &mut Vec<Action>,
)
    requires
        old(state)@.wf(),
    ensures
        final(state)@ == after_response(old(state)@, *header),
        views(final(actions)@) == views(old(actions)@) + response_actions(
            old(state)@,
            *header,
            content(payload),
        ),
        final(state)@.wf(),
{
    let ghost s = state@;
    let ghost before = views(actions@);
    assert(before + Seq::<ActionView>::empty() =~= before);
    let key = CallKey { client_id: header.client_id, session_id: header.session_id };
    match state.pending_calls.remove(&key) {
        Some(pending) => {
            let return_code = ReturnCode::from_wire(header.return_code);
            push(
                actions,
                Action::Deliver {
                    to: pending.response,
                    message: Delivery::CallResult(Response { return_code, payload }),
                },
            );
            assert(views(actions@) =~= before + response_actions(s, *header, content(payload)));
        },
        None => {},
    }
    assert(state@ =~= after_response(s, *header));
}

/// The first service from position `i` on that runs at an address.
pub open spec fn service_at(
    discovered: Seq<(ServiceKey, DiscoveredService)>,
    service_id: u16,
    from: SocketAddr,
    i: int,
) -> Option<ServiceKey>
    decreases discovered.len() - i,
{
    if i < 0 || i >= discovered.len() {
        None
    } else if discovered[i].0.service_id == service_id && discovered[i].1.runs_at(from) {
        Some(discovered[i].0)
    } else {
        service_at(discovered, service_id, from, i + 1)
    }
}

/// An event for a subscription: it has no socket of its own, and the event came on its
/// connection.
pub open spec fn receives(c: ClientSubscription, key: ServiceKey, conn_key: u64) -> bool {
    c.service == key && !c.has_dedicated_socket && c.tcp_conn_key == conn_key
}

/// An event goes to the first `n` subscriptions, as far as it is for them.
pub open spec fn event_to_subscriptions(
    subs: Seq<ClientSubscription>,
    key: ServiceKey,
    conn_key: u64,
    event: EventView,
    n: int,
) -> Seq<ActionView>
    decreases n,
{
    if n <= 0 {
        Seq::empty()
    } else {
        let before = event_to_subscriptions(subs, key, conn_key, event, n - 1);
        if receives(subs[n - 1], key, conn_key) {
            before.push(
                ActionView::Deliver {
                    to: subs[n - 1].events_tx,
                    message: DeliveryView::Event(event),
                },
            )
        } else {
            before
        }
    }
}

/// An event goes to the first `n` listeners, as far as they listen to the service.
pub open spec fn event_to_listeners(
    listeners: Seq<(SubscriberKey, ChannelId)>,
    service_id: u16,
    event: EventView,
    n: int,
) -> Seq<ActionView>
    decreases n,
{
    if n <= 0 {
        Seq::empty()
    } else {
        let before = event_to_listeners(listeners, service_id, event, n - 1);
        if listeners[n - 1].0.service_id == service_id {
            before.push(
                ActionView::Deliver {
                    to: listeners[n - 1].1,
                    message: DeliveryView::Event(event),
                },
            )
        } else {
            before
        }
    }
}

/// What an event does: where it is valid and comes from a known service, it goes to the
/// subscriptions on its connection and to the listeners.
pub open spec fn notification_actions(
    s: StateView,
    header: Header,
    payload: Seq<u8>,
    from: SocketAddr,
    conn_key: u64,
) -> Seq<ActionView> {
    match service_at(s.discovered, header.service_id, from, 0) {
        Some(key) => if EventId::allowed(header.method_id) {
            let event = EventView { event_id: header.method_id, payload };
            event_to_subscriptions(
                s.subscriptions,
                key,
                conn_key,
                event,
                s.subscriptions.len() as int,
            ) + event_to_listeners(
                s.static_listeners,
                header.service_id,
                event,
                s.static_listeners.len() as int,
            )
        } else {
            Seq::empty()
        },
        None => Seq::empty(),
    }
}

fn find_service_at(state: &RuntimeState, service_id: u16, from: SocketAddr) -> (r: Option<
    ServiceKey,
>)
    ensures
        r == service_at(state@.discovered, service_id, from, 0),
{
    let mut i: usize = 0;
    while i < state.discovered.len()
        invariant
            0 <= i <= state@.discovered.len(),
            service_at(state@.discovered, service_id, from, 0) == service_at(
                state@.discovered,
                service_id,
                from,
                i as int,
            ),
        decreases state@.discovered.len() - i,
    {
        let key = state.discovered.key_at(i);
        if key.service_id == service_id && state.discovered.value_at(i).is_at(from) {
            return Some(key);
        }
        i += 1;
    }
    None
}

/// Handles an event.
pub fn handle_incoming_notification(
    header: &Header,
    payload: bytes::Bytes,
    from: SocketAddr,
    state: &RuntimeState,
    conn_key: u64,
    actions: &mut Vec<Action>,
)
    ensures
        views(final(actions)@) == views(old(actions)@) + notification_actions(
            state@,
            *header,
            content(payload),
            from,
            conn_key,
        ),
{
    let ghost before = views(actions@);
    assert(before + Seq::<ActionView>::empty() =~= before);
    let event_id = match EventId::new(header.method_id) {
        Some(event_id) => event_id,
        None => {
            return;
        },
    };
    let event = Event { event_id, payload };
    let key = match find_service_at(state, header.service_id, from) {
        Some(key) => key,
        None => {
            return;
        },
    };
    let ghost ev = event@;
    let ghost subs = state@.subscriptions;
    let mut i: usize = 0;
    while i < state.subscriptions.len()
        invariant
            0 <= i <= subs.len(),
            subs == state.subscriptions@,
            ev == event@,
            views(actions@) == before + event_to_subscriptions(subs, key, conn_key, ev, i as int),
        decreases subs.len() - i,
    {
        let sub = state.subscriptions[i];
        if sub.service == key && !sub.has_dedicated_socket && sub.tcp_conn_key == conn_key {
            push(
                actions,
                Action::Deliver { to: sub.events_tx, message: Delivery::Event(event.share()) },
            );
        }
        i += 1;
        assert(views(actions@) =~= before + event_to_subscriptions(
            subs,
            key,
            conn_key,
            ev,
            i as int,
        ));
    }
    let ghost mid = views(actions@);
    let ghost listeners = state@.static_listeners;
    assert(mid + Seq::<ActionView>::empty() =~= mid);
    let mut k: usize = 0;
    while k < state.static_listeners.len()
        invariant
            0 <= k <= listeners.len(),
            listeners == state.static_listeners@,
            ev == event@,
            views(actions@) == mid + event_to_listeners(
                listeners,
                header.service_id,
                ev,
                k as int,
            ),
        decreases listeners.len() - k,
    {
        let listener = state.static_listeners.key_at(k);
        if listener.service_id == header.service_id {
            push(
                actions,
                Action::Deliver {
                    to: *state.static_listeners.value_at(k),
                    message: Delivery::Event(event.share()),
                },
            );
        }
        k += 1;
        assert(views(actions@) =~= mid + event_to_listeners(
            listeners,
            header.service_id,
            ev,
            k as int,
        ));
    }
    assert(views(actions@) =~= before + notification_actions(
        state@,
        *header,
        content(event.payload),
        from,
        conn_key,
    ));
}

/// The event that a datagram on a subscription's own socket carries.
pub open spec fn event_in(data: Seq<u8>) -> Option<EventView> {
    match Header::parsed(data) {
        Some(h) => if h.message_type is Notification && EventId::allowed(h.method_id)
            && h.payload_len() <= data.len() - 16 {
            Some(
                EventView {
                    event_id: h.method_id,
                    payload: data.subrange(16, 16 + h.payload_len()),
                },
            )
        } else {
            None
        },
        None => None,
    }
}

/// The event that a datagram on a subscription's own socket carries; `None` where it is no
/// whole event.
pub fn event_of_datagram(data: &[u8]) -> (r: Option<Event>)
    ensures
        match r {
            Some(e) => event_in(data@) == Some(e@),
            None => event_in(data@) is None,
        },
{
    let header = match Header::parse(data) {
        Some(header) => header,
        None => {
            return None;
        },
    };
    if header.message_type != MessageType::Notification {
        return None;
    }
    let event_id = match EventId::new(header.method_id) {
        Some(event_id) => event_id,
        None => {
            return None;
        },
    };
    let payload_len: usize = header.payload_length();
    if data.len() - 16 < payload_len {
        return None;
    }
    let payload = crate::buffer::copy_from_slice(slice_subrange(data, 16, 16 + payload_len));
    Some(Event { event_id, payload })
}

} // verus!
