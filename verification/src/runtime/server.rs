//! What a server asks of the runtime, and what arrives for servers.

use crate::buffer::{as_slice, content, share};
use crate::config::{MethodConfig, OfferConfig, Transport};
use crate::error::{ConfigError, Error, ErrorView, IoError};
use crate::ids::{InstanceId, ServiceId};
use crate::message::{
    outcome, ChannelId, Delivery, DeliveryView, ServiceRequest, ServiceRequestView,
};
use crate::net::SocketAddr;
use crate::runtime::action::{
    push, views, Action, ActionView, PendingServerResponse, RpcTransportSender,
};
use crate::runtime::rpc::{
    build_notification, build_response, notification_bytes, payload_fits, response_bytes,
};
use crate::runtime::sd::{build_stop_offer_message, single_entry, stop_offer_entry};
use crate::runtime::state::{
    OfferedService, RuntimeState, ServerSubscription, ServiceKey, StateView, SubscriberKey,
    SubscriberSlot, MILLISECOND,
};
use crate::table::{has_key, lookup, put, without};
use crate::text::{decimal, hex4, push_decimal, push_hex4};
use crate::wire::Header;
use vstd::prelude::*;
use vstd::string::StringExecFns;

verus! {

/// How far apart discovery messages to the group are kept.
pub const MIN_SD_MSG_DISTANCE: u128 = 150_000_000;

/// How long the first of several offers is held back.
pub const OFFER_FLUSH_DELAY: u128 = 50_000_000;

/// The port that a new offer uses where it names none: the one behind the discovery port, two
/// further for each service that is offered already.
pub open spec fn base_port(s: StateView) -> int {
    s.local_endpoint.port + 1 + s.offered.len() % 0x1_0000 * 2
}

/// The ports that a new offer uses are ports.
pub open spec fn offer_ports_fit(s: StateView, config: OfferConfig) -> bool {
    config.udp_port == Some(0u16) || config.tcp_port == Some(0u16) ==> base_port(s) <= u16::MAX
}

/// Whether the ports that a new offer uses are ports.
pub fn can_place_offer(state: &RuntimeState, config: &OfferConfig) -> (r: bool)
    ensures
        r == offer_ports_fit(state@, *config),
{
    let base: u32 = state.local_endpoint.port as u32 + 1 + (state.offered.len() % 0x1_0000) as u32
        * 2;
    base <= 0xFFFF || !(is_default(config.udp_port) || is_default(config.tcp_port))
}

fn is_default(port: Option<u16>) -> (r: bool)
    ensures
        r == (port == Some(0u16)),
{
    match port {
        Some(p) => p == 0,
        None => false,
    }
}

/// The local address of an offer's transport, where it has that transport.
pub open spec fn offer_address(s: StateView, port: Option<u16>) -> Option<SocketAddr> {
    match port {
        Some(p) => Some(
            SocketAddr {
                ip: s.local_endpoint.ip,
                port: if p == 0 {
                    base_port(s) as u16
                } else {
                    p
                },
            },
        ),
        None => None,
    }
}

fn place_offer(state: &RuntimeState, port: Option<u16>) -> (r: Option<SocketAddr>)
    requires
        port == Some(0u16) ==> base_port(state@) <= u16::MAX,
    ensures
        r == offer_address(state@, port),
{
    let ip = state.local_endpoint.ip;
    match port {
        Some(p) => if p == 0 {
            let count: u16 = (state.offered.len() % 0x1_0000) as u16;
            Some(SocketAddr::new(ip, state.local_endpoint.port + 1 + count * 2))
        } else {
            Some(SocketAddr::new(ip, p))
        },
        None => None,
    }
}

/// The local addresses that a new offer has to open, for UDP and for TCP. Port 0 stands for
/// the next port behind those of the services that are offered already.
pub fn offer_addresses(state: &RuntimeState, config: &OfferConfig) -> (r: (
    Option<SocketAddr>,
    Option<SocketAddr>,
))
    requires
        offer_ports_fit(state@, *config),
    ensures
        r.0 == offer_address(state@, config.udp_port),
        r.1 == offer_address(state@, config.tcp_port),
{
    (place_offer(state, config.udp_port), place_offer(state, config.tcp_port))
}

/// A socket that was opened for an offer.
#[derive(Clone, Copy, PartialEq, Eq, Structural, Debug)]
pub struct OpenedSocket {
    /// Its address.
    pub endpoint: SocketAddr,
    /// Its sending end.
    pub sender: ChannelId,
}

/// A socket that an offer has asked for, where it asked: opened or not.
pub type SocketOutcome = Option<Result<OpenedSocket, IoError>>;

/// The failure to open a socket.
pub open spec fn socket_failure(socket: SocketOutcome) -> Option<ErrorView> {
    match socket {
        Some(Err(e)) => Some(ErrorView::Io(e.kind, e.message@)),
        _ => None,
    }
}

/// Why an offer fails, if it does: each service instance is offered once.
pub open spec fn offer_refusal(
    s: StateView,
    key: ServiceKey,
    udp: SocketOutcome,
    tcp: SocketOutcome,
) -> Option<ErrorView> {
    if has_key(s.offered, key) {
        Some(ErrorView::AlreadyOffered)
    } else if socket_failure(udp) is Some {
        socket_failure(udp)
    } else if socket_failure(tcp) is Some {
        socket_failure(tcp)
    } else if udp is None && tcp is None {
        Some(ErrorView::Config("No transport configured"@))
    } else {
        None
    }
}

/// The service that an offer makes.
pub open spec fn new_offer(
    major_version: u8,
    minor_version: u32,
    method_config: MethodConfig,
    requests: ChannelId,
    udp: SocketOutcome,
    tcp: SocketOutcome,
    now: u64,
) -> OfferedService {
    OfferedService {
        major_version,
        minor_version,
        requests_tx: requests,
        last_offer: now,
        udp_endpoint: match udp {
            Some(Ok(u)) => Some(u.endpoint),
            _ => None,
        },
        udp_transport: match udp {
            Some(Ok(u)) => Some(RpcTransportSender::Udp(u.sender)),
            _ => None,
        },
        tcp_endpoint: match tcp {
            Some(Ok(t)) => Some(t.endpoint),
            _ => None,
        },
        tcp_transport: match tcp {
            Some(Ok(t)) => Some(RpcTransportSender::Tcp(t.sender)),
            _ => None,
        },
        method_config,
        is_announcing: true,
    }
}

/// When held back offers are sent: 50 ms after the first, unless the periodic tasks are due
/// before another 150 ms have passed or were never due, which then send them.
pub open spec fn first_offer_deadline(s: StateView, now: u64) -> Option<u128> {
    match s.pending_offers_deadline {
        Some(deadline) => Some(deadline),
        None => match s.last_periodic_cycle {
            Some(last) => if now + OFFER_FLUSH_DELAY + MIN_SD_MSG_DISTANCE < last
                + s.config.cyclic_offer_delay * MILLISECOND {
                Some((now + OFFER_FLUSH_DELAY) as u128)
            } else {
                None
            },
            None => None,
        },
    }
}

/// The state after an offer whose sockets were opened.
pub open spec fn after_offer_command(
    s: StateView,
    key: ServiceKey,
    offered: OfferedService,
    now: u64,
) -> StateView {
    StateView {
        offered: put(s.offered, key, offered),
        pending_initial_offers: s.pending_initial_offers.push(key),
        pending_offers_deadline: first_offer_deadline(s, now),
        ..s
    }
}

fn next_offer_deadline(state: &RuntimeState, now: u64) -> (r: Option<u128>)
    requires
        state@.wf(),
    ensures
        r == first_offer_deadline(state@, now),
{
    if state.pending_offers_deadline.is_some() {
        return state.pending_offers_deadline;
    }
    match state.last_periodic_cycle {
        Some(last) => {
            let delay: u64 = state.config.cyclic_offer_delay;
            let next_cycle: u128 = last + delay as u128 * MILLISECOND;
            let proposed: u128 = now as u128 + OFFER_FLUSH_DELAY;
            if proposed + MIN_SD_MSG_DISTANCE < next_cycle {
                Some(proposed)
            } else {
                None
            }
        },
        None => None,
    }
}

/// Offers a service whose sockets were opened, or not. A service instance that is offered
/// already is not offered again. The first offer is held back so that
/// offers that start together share a message.
pub fn handle_offer_command(
    service_id: ServiceId,
    instance_id: InstanceId,
    major_version: u8,
    minor_version: u32,
    method_config: MethodConfig,
    requests: ChannelId,
    response: ChannelId,
    udp: SocketOutcome,
    tcp: SocketOutcome,
    state: &mut RuntimeState,
    actions: &mut Vec<Action>,
    now: u64,
)
    requires
        old(state)@.wf(),
    ensures
        final(state)@ == (match offer_refusal(
            old(state)@,
            ServiceKey::of(service_id, instance_id, major_version),
            udp,
            tcp,
        ) {
            Some(_) => old(state)@,
            None => after_offer_command(
                old(state)@,
                ServiceKey::of(service_id, instance_id, major_version),
                new_offer(major_version, minor_version, method_config, requests, udp, tcp, now),
                now,
            ),
        }),
        views(final(actions)@) == views(old(actions)@).push(
            ActionView::Deliver {
                to: response,
                message: DeliveryView::Offered(
                    match offer_refusal(
                        old(state)@,
                        ServiceKey::of(service_id, instance_id, major_version),
                        udp,
                        tcp,
                    ) {
                        Some(e) => Err(e),
                        None => Ok(requests),
                    },
                ),
            },
        ),
        final(state)@.wf(),
{
    let ghost s = state@;
    let key = ServiceKey::new(service_id, instance_id, major_version);
    if state.offered.contains(&key) {
        push(
            actions,
            Action::Deliver {
                to: response,
                message: Delivery::Offered(Err(Error::AlreadyOffered)),
            },
        );
        return;
    }
    let (udp_endpoint, udp_transport) = match udp {
        None => (None, None),
        Some(Ok(u)) => (Some(u.endpoint), Some(RpcTransportSender::Udp(u.sender))),
        Some(Err(e)) => {
            push(
                actions,
                Action::Deliver {
                    to: response,
                    message: Delivery::Offered(Err(Error::Io(e))),
                },
            );
            return;
        },
    };
    let (tcp_endpoint, tcp_transport) = match tcp {
        None => (None, None),
        Some(Ok(t)) => (Some(t.endpoint), Some(RpcTransportSender::Tcp(t.sender))),
        Some(Err(e)) => {
            push(
                actions,
                Action::Deliver {
                    to: response,
                    message: Delivery::Offered(Err(Error::Io(e))),
                },
            );
            return;
        },
    };
    if udp_endpoint.is_none() && tcp_endpoint.is_none() {
        let error = Error::Config(ConfigError::new("No transport configured"));
        push(
            actions,
            Action::Deliver { to: response, message: Delivery::Offered(Err(error)) },
        );
        return;
    }
    let deadline: Option<u128> = next_offer_deadline(state, now);
    let offered = OfferedService {
        major_version,
        minor_version,
        requests_tx: requests,
        last_offer: now,
        udp_endpoint,
        udp_transport,
        tcp_endpoint,
        tcp_transport,
        method_config,
        is_announcing: true,
    };
    state.offered.insert(key, offered);
    state.pending_initial_offers.push(key);
    state.pending_offers_deadline = deadline;
    assert(state@ =~= after_offer_command(s, key, offered, now));
    push(actions, Action::Deliver { to: response, message: Delivery::Offered(Ok(requests)) });
}

/// A service as error messages name it.
pub open spec fn service_text(key: ServiceKey) -> Seq<char> {
    decimal(key.service_id as int) + "/"@ + decimal(key.instance_id as int) + "/"@ + decimal(
        key.major_version as int,
    )
}

fn push_service(text: &mut String, key: ServiceKey)
    ensures
        final(text)@ == old(text)@ + service_text(key),
{
    let ghost before = text@;
    push_decimal(text, key.service_id as u32);
    text.append("/");
    push_decimal(text, key.instance_id as u32);
    text.append("/");
    push_decimal(text, key.major_version as u32);
    assert(text@ =~= before + service_text(key));
}

/// Why an event cannot be registered, if it cannot: its service has to be offered, and each
/// event is registered once.
pub open spec fn register_refusal(s: StateView, key: ServiceKey, event_id: u16) -> Option<ErrorView> {
    if !has_key(s.offered, key) {
        Some(
            ErrorView::Config(
                "Cannot register event for service "@ + service_text(key)
                    + " that is not being offered"@,
            ),
        )
    } else if s.registered_events.contains((key, event_id)) {
        Some(
            ErrorView::Config(
                "Event ID 0x"@ + hex4(event_id as int) + " already registered for service "@
                    + service_text(key),
            ),
        )
    } else {
        None
    }
}

fn is_registered(state: &RuntimeState, key: ServiceKey, event_id: u16) -> (r: bool)
    ensures
        r == state@.registered_events.contains((key, event_id)),
{
    let is_it = |x: (ServiceKey, u16)| -> (b: bool)
        ensures
            b == (x == (key, event_id)),
        { x.0 == key && x.1 == event_id };
    let r: bool = crate::rows::any(
        &state.registered_events,
        is_it,
        Ghost(|x: (ServiceKey, u16)| x == (key, event_id)),
    );
    proof {
        let s = state.registered_events@;
        if s.contains((key, event_id)) {
            let i = choose|i: int| 0 <= i < s.len() && s[i] == (key, event_id);
            assert(s[i] == (key, event_id));
        }
    }
    r
}

/// Registers an event of an offered service.
pub fn handle_register_event(
    service_id: ServiceId,
    instance_id: InstanceId,
    major_version: u8,
    event_id: u16,
    state: &mut RuntimeState,
) -> (r: Result<(), Error>)
    requires
        old(state)@.wf(),
    ensures
        outcome(r) == (match register_refusal(
            old(state)@,
            ServiceKey::of(service_id, instance_id, major_version),
            event_id,
        ) {
            Some(e) => Err(e),
            None => Ok(()),
        }),
        final(state)@ == (if r is Ok {
            StateView {
                registered_events: old(state)@.registered_events.push(
                    (ServiceKey::of(service_id, instance_id, major_version), event_id),
                ),
                ..old(state)@
            }
        } else {
            old(state)@
        }),
        final(state)@.wf(),
{
    let ghost s = state@;
    let key = ServiceKey::new(service_id, instance_id, major_version);
    if !state.offered.contains(&key) {
        let mut text = String::from_str("Cannot register event for service ");
        push_service(&mut text, key);
        text.append(" that is not being offered");
        return Err(Error::Config(ConfigError { message: text }));
    }
    if is_registered(state, key, event_id) {
        let mut text = String::from_str("Event ID 0x");
        push_hex4(&mut text, event_id);
        text.append(" already registered for service ");
        push_service(&mut text, key);
        return Err(Error::Config(ConfigError { message: text }));
    }
    state.registered_events.push((key, event_id));
    assert(state@ =~= (StateView {
        registered_events: s.registered_events.push((key, event_id)),
        ..s
    }));
    Ok(())
}

/// Wants the events of other services.
pub open spec fn of_other_service(key: ServiceKey) -> spec_fn((ServiceKey, u16)) -> bool {
    |x: (ServiceKey, u16)| x.0 != key
}

/// The state after an offer was withdrawn: neither the service nor its events are there.
pub open spec fn after_stop_offer_command(s: StateView, key: ServiceKey) -> StateView {
    StateView {
        offered: without(s.offered, key),
        registered_events: s.registered_events.filter(of_other_service(key)),
        ..s
    }
}

/// The message that withdraws an offer, where there was one.
pub open spec fn stop_offer_command_actions(s: StateView, key: ServiceKey) -> Seq<ActionView> {
    match lookup(s.offered, key) {
        Some(offered) => seq![
            ActionView::SendSd {
                message: single_entry(s.flags(false), stop_offer_entry(key, offered)),
                target: s.config.multicast_target(),
            },
        ],
        None => Seq::empty(),
    }
}

/// Withdraws an offer.
pub fn handle_stop_offer(
    service_id: ServiceId,
    instance_id: InstanceId,
    major_version: u8,
    state: &mut RuntimeState,
    actions: &mut Vec<Action>,
)
    requires
        old(state)@.wf(),
    ensures
        final(state)@ == after_stop_offer_command(
            old(state)@,
            ServiceKey::of(service_id, instance_id, major_version),
        ),
        views(final(actions)@) == views(old(actions)@) + stop_offer_command_actions(
            old(state)@,
            ServiceKey::of(service_id, instance_id, major_version),
        ),
        final(state)@.wf(),
{
    let ghost s = state@;
    let ghost before = views(actions@);
    let key = ServiceKey::new(service_id, instance_id, major_version);
    if let Some(offered) = state.offered.remove(&key) {
        let message = build_stop_offer_message(key, &offered, state.sd_flags(false));
        push(actions, Action::SendSd { message, target: state.config.sd_multicast_addr() });
    }
    assert(views(actions@) =~= before + stop_offer_command_actions(s, key));
    proof {
        crate::runtime::state::lemma_filter_no_duplicates(
            s.registered_events,
            of_other_service(key),
        );
    }
    let others = |x: (ServiceKey, u16)| -> (b: bool)
        ensures
            b == (x.0 != key),
        { x.0 != key };
    crate::rows::keep(&mut state.registered_events, others, Ghost(of_other_service(key)));
    assert(state@ =~= after_stop_offer_command(s, key));
}

/// Where an event goes, and how.
pub type NotifyTarget = (SocketAddr, Transport);

/// The targets, and one more unless it is there.
pub open spec fn with_target(targets: Seq<NotifyTarget>, t: NotifyTarget) -> Seq<NotifyTarget> {
    if targets.contains(t) {
        targets
    } else {
        targets.push(t)
    }
}

/// The targets, and those of the first `n` subscribers that are in the group.
pub open spec fn with_group_targets(
    subscribers: Seq<(SubscriberSlot, ServerSubscription)>,
    group: SubscriberKey,
    targets: Seq<NotifyTarget>,
    n: int,
) -> Seq<NotifyTarget>
    decreases n,
{
    if n <= 0 {
        targets
    } else {
        let before = with_group_targets(subscribers, group, targets, n - 1);
        let (slot, sub) = subscribers[n - 1];
        if slot.group == group {
            with_target(before, (slot.endpoint, sub.transport))
        } else {
            before
        }
    }
}

/// An eventgroup of a service.
pub open spec fn group_of(key: ServiceKey, eventgroup_id: u16) -> SubscriberKey {
    SubscriberKey {
        service_id: key.service_id,
        instance_id: key.instance_id,
        major_version: key.major_version,
        eventgroup_id,
    }
}

/// Whether someone is subscribed to the eventgroup.
pub open spec fn is_subscribed(
    subscribers: Seq<(SubscriberSlot, ServerSubscription)>,
    group: SubscriberKey,
) -> bool {
    exists|i: int| 0 <= i < subscribers.len() && (#[trigger] subscribers[i]).0.group == group
}

/// Tells whether someone is subscribed to an eventgroup of a service.
pub fn handle_has_subscribers(
    service_id: ServiceId,
    instance_id: InstanceId,
    major_version: u8,
    eventgroup_id: u16,
    state: &RuntimeState,
) -> (r: bool)
    ensures
        r == is_subscribed(
            state@.server_subscribers,
            group_of(ServiceKey::of(service_id, instance_id, major_version), eventgroup_id),
        ),
{
    let key = ServiceKey::new(service_id, instance_id, major_version);
    let group = SubscriberKey {
        service_id: key.service_id,
        instance_id: key.instance_id,
        major_version: key.major_version,
        eventgroup_id,
    };
    let ghost subscribers = state@.server_subscribers;
    let mut i: usize = 0;
    while i < state.server_subscribers.len()
        invariant
            0 <= i <= subscribers.len(),
            subscribers == state.server_subscribers@,
            group == group_of(
                ServiceKey::of(service_id, instance_id, major_version),
                eventgroup_id,
            ),
            forall|k: int| 0 <= k < i ==> (#[trigger] subscribers[k]).0.group != group,
        decreases subscribers.len() - i,
    {
        if state.server_subscribers.key_at(i).group == group {
            return true;
        }
        i += 1;
    }
    false
}

/// The targets of the first `n` eventgroups, each once.
pub open spec fn notify_targets(
    subscribers: Seq<(SubscriberSlot, ServerSubscription)>,
    key: ServiceKey,
    eventgroup_ids: Seq<u16>,
    n: int,
) -> Seq<NotifyTarget>
    decreases n,
{
    if n <= 0 {
        Seq::empty()
    } else {
        with_group_targets(
            subscribers,
            group_of(key, eventgroup_ids[n - 1]),
            notify_targets(subscribers, key, eventgroup_ids, n - 1),
            subscribers.len() as int,
        )
    }
}

/// The messages that carry an event to its targets.
pub open spec fn notify_actions(
    key: ServiceKey,
    data: Seq<u8>,
    targets: Seq<NotifyTarget>,
) -> Seq<ActionView> {
    targets.map_values(
        |t: NotifyTarget|
            ActionView::SendServerMessage {
                service_key: key,
                data,
                target: t.0,
                transport: t.1,
            },
    )
}

fn add_target(targets: &mut Vec<NotifyTarget>, t: NotifyTarget)
    ensures
        final(targets)@ == with_target(old(targets)@, t),
{
    let is_it = |x: NotifyTarget| -> (b: bool)
        ensures
            b == (x == t),
        { x.0 == t.0 && x.1 == t.1 };
    let known: bool = crate::rows::any(targets, is_it, Ghost(|x: NotifyTarget| x == t));
    proof {
        if targets@.contains(t) {
            let i = choose|i: int| 0 <= i < targets@.len() && targets@[i] == t;
            assert(targets@[i] == t);
        }
    }
    if !known {
        targets.push(t);
    }
}

fn collect_targets(state: &RuntimeState, key: ServiceKey, eventgroup_ids: &[u16]) -> (r: Vec<
    NotifyTarget,
>)
    ensures
        r@ == notify_targets(
            state@.server_subscribers,
            key,
            eventgroup_ids@,
            eventgroup_ids@.len() as int,
        ),
{
    let ghost subs = state@.server_subscribers;
    let mut targets: Vec<NotifyTarget> = Vec::new();
    let mut i: usize = 0;
    while i < eventgroup_ids.len()
        invariant
            0 <= i <= eventgroup_ids@.len(),
            subs == state.server_subscribers@,
            targets@ == notify_targets(subs, key, eventgroup_ids@, i as int),
        decreases eventgroup_ids@.len() - i,
    {
        let group = SubscriberKey {
            service_id: key.service_id,
            instance_id: key.instance_id,
            major_version: key.major_version,
            eventgroup_id: eventgroup_ids[i],
        };
        let ghost before = targets@;
        let mut k: usize = 0;
        while k < state.server_subscribers.len()
            invariant
                0 <= k <= subs.len(),
                subs == state.server_subscribers@,
                targets@ == with_group_targets(subs, group, before, k as int),
            decreases subs.len() - k,
        {
            let slot = state.server_subscribers.key_at(k);
            if slot.group == group {
                let transport = state.server_subscribers.value_at(k).transport;
                add_target(&mut targets, (slot.endpoint, transport));
            }
            k += 1;
        }
        i += 1;
    }
    targets
}

fn send_to_targets(
    key: ServiceKey,
    data: &bytes::Bytes,
    targets: &Vec<NotifyTarget>,
    actions: &mut Vec<Action>,
)
    ensures
        views(final(actions)@) == views(old(actions)@) + notify_actions(
            key,
            content(*data),
            targets@,
        ),
{
    let ghost before = views(actions@);
    let ghost bytes = content(*data);
    let ghost all = notify_actions(key, bytes, targets@);
    let mut i: usize = 0;
    assert(before + all.take(0) =~= before);
    while i < targets.len()
        invariant
            0 <= i <= targets@.len(),
            content(*data) == bytes,
            all == notify_actions(key, bytes, targets@),
            views(actions@) == before + all.take(i as int),
        decreases targets@.len() - i,
    {
        push(
            actions,
            Action::SendServerMessage {
                service_key: key,
                data: share(data),
                target: targets[i].0,
                transport: targets[i].1,
            },
        );
        proof {
            crate::rows::lemma_take_step(all, i as int);
            assert(views(actions@) =~= before + all.take(i + 1));
        }
        i += 1;
    }
    assert(all.take(i as int) =~= all);
}

/// Sends an event to every subscriber of its eventgroups, once.
pub fn handle_notify(
    service_id: ServiceId,
    instance_id: InstanceId,
    major_version: u8,
    eventgroup_ids: &[u16],
    event_id: u16,
    payload: &bytes::Bytes,
    state: &RuntimeState,
    actions: &mut Vec<Action>,
)
    requires
        payload_fits(content(*payload).len() as int),
    ensures
        views(final(actions)@) == views(old(actions)@) + notify_actions(
            ServiceKey::of(service_id, instance_id, major_version),
            notification_bytes(
                service_id@,
                event_id,
                state@.client_id,
                0,
                1,
                content(*payload),
            ),
            notify_targets(
                state@.server_subscribers,
                ServiceKey::of(service_id, instance_id, major_version),
                eventgroup_ids@,
                eventgroup_ids@.len() as int,
            ),
        ),
{
    let ghost before = views(actions@);
    let key = ServiceKey::new(service_id, instance_id, major_version);
    let targets = collect_targets(state, key, eventgroup_ids);
    let ghost bytes = notification_bytes(
        service_id@,
        event_id,
        state@.client_id,
        0,
        1,
        content(*payload),
    );
    let ghost all = notify_actions(key, bytes, targets@);
    if targets.len() == 0 {
        assert(views(actions@) =~= before + all);
        return;
    }
    let data = build_notification(
        service_id.value(),
        event_id,
        state.client_id,
        0,
        1,
        as_slice(payload),
    );
    send_to_targets(key, &data, &targets, actions);
}

/// The targets without subscription, which are reached over UDP.
pub open spec fn udp_targets(targets: Seq<SocketAddr>) -> Seq<NotifyTarget> {
    targets.map_values(|t: SocketAddr| (t, Transport::Udp))
}

/// Sends an event to targets that have not subscribed.
pub fn handle_notify_static(
    service_id: ServiceId,
    instance_id: InstanceId,
    major_version: u8,
    event_id: u16,
    payload: &bytes::Bytes,
    targets: &[SocketAddr],
    state: &RuntimeState,
    actions: &mut Vec<Action>,
)
    requires
        payload_fits(content(*payload).len() as int),
    ensures
        views(final(actions)@) == views(old(actions)@) + notify_actions(
            ServiceKey::of(service_id, instance_id, major_version),
            notification_bytes(
                service_id@,
                event_id,
                state@.client_id,
                0,
                1,
                content(*payload),
            ),
            udp_targets(targets@),
        ),
{
    let key = ServiceKey::new(service_id, instance_id, major_version);
    let data = build_notification(
        service_id.value(),
        event_id,
        state.client_id,
        0,
        1,
        as_slice(payload),
    );
    let mut over_udp: Vec<NotifyTarget> = Vec::new();
    let mut i: usize = 0;
    while i < targets.len()
        invariant
            0 <= i <= targets@.len(),
            over_udp@ == udp_targets(targets@).take(i as int),
        decreases targets@.len() - i,
    {
        over_udp.push((targets[i], Transport::Udp));
        proof {
            crate::rows::lemma_take_step(udp_targets(targets@), i as int);
        }
        i += 1;
    }
    assert(over_udp@ =~= udp_targets(targets@));
    send_to_targets(key, &data, &over_udp, actions);
}

/// The first service from position `i` on with a service identifier.
pub open spec fn first_offer_of(
    offered: Seq<(ServiceKey, OfferedService)>,
    service_id: u16,
    i: int,
) -> Option<int>
    decreases offered.len() - i,
{
    if i < 0 || i >= offered.len() {
        None
    } else if offered[i].0.service_id == service_id {
        Some(i)
    } else {
        first_offer_of(offered, service_id, i + 1)
    }
}

/// A request on a socket of a service names another service.
pub open spec fn is_misrouted(header: Header, socket: Option<ServiceKey>) -> bool {
    socket matches Some(key) && key.service_id != header.service_id
}

/// The service that a request is for: that of the socket on which it came, or else the
/// first with its service identifier.
pub open spec fn addressee(s: StateView, header: Header, socket: Option<ServiceKey>) -> Option<
    (ServiceKey, OfferedService),
> {
    if is_misrouted(header, socket) {
        None
    } else {
        match socket {
            Some(key) => match lookup(s.offered, key) {
                Some(offered) => Some((key, offered)),
                None => None,
            },
            None => match first_offer_of(s.offered, header.service_id, 0) {
                Some(i) => Some(s.offered[i]),
                None => None,
            },
        }
    }
}

fn find_addressee(state: &RuntimeState, header: &Header, socket: Option<ServiceKey>) -> (r: Option<
    usize,
>)
    requires
        state@.wf(),
    ensures
        match r {
            Some(i) => i < state@.offered.len() && addressee(state@, *header, socket) == Some(
                state@.offered[i as int],
            ),
            None => addressee(state@, *header, socket) is None,
        },
{
    match socket {
        Some(key) => {
            if key.service_id != header.service_id {
                return None;
            }
            match state.offered.position(&key) {
                Some(i) => {
                    proof {
                        crate::table::lemma_lookup_at(state@.offered, i as int);
                    }
                    Some(i)
                },
                None => None,
            }
        },
        None => {
            let mut i: usize = 0;
            while i < state.offered.len()
                invariant
                    0 <= i <= state@.offered.len(),
                    socket is None,
                    first_offer_of(state@.offered, header.service_id, 0) == first_offer_of(
                        state@.offered,
                        header.service_id,
                        i as int,
                    ),
                decreases state@.offered.len() - i,
            {
                if state.offered.key_at(i).service_id == header.service_id {
                    return Some(i);
                }
                i += 1;
            }
            None
        },
    }
}

/// The response that refuses a request with a return code.
pub open spec fn refusal_bytes(header: Header, return_code: u8, uses_exception: bool) -> Seq<u8> {
    response_bytes(
        header.service_id,
        header.method_id,
        header.client_id,
        header.session_id,
        header.interface_version,
        return_code,
        Seq::empty(),
        uses_exception,
    )
}

fn refuse_request(header: &Header, return_code: u8, uses_exception: bool) -> (r: bytes::Bytes)
    ensures
        content(r) == refusal_bytes(*header, return_code, uses_exception),
{
    let payload: Vec<u8> = Vec::new();
    assert(payload@ =~= Seq::<u8>::empty());
    build_response(
        header.service_id,
        header.method_id,
        header.client_id,
        header.session_id,
        header.interface_version,
        return_code,
        payload.as_slice(),
        uses_exception,
    )
}

/// What the answer to a request needs.
pub open spec fn response_context(
    header: Header,
    instance_id: u16,
    from: SocketAddr,
    uses_exception: bool,
    rpc_transport: RpcTransportSender,
) -> PendingServerResponse {
    PendingServerResponse {
        service_id: header.service_id,
        instance_id,
        method_id: header.method_id,
        client_id: header.client_id,
        session_id: header.session_id,
        interface_version: header.interface_version,
        client_addr: from,
        uses_exception,
        rpc_transport,
    }
}

/// What a request does: it goes to the service that it is for. A request for none is
/// refused as for an unknown service, and one with the identifier of an event as malformed.
pub open spec fn request_actions(
    s: StateView,
    header: Header,
    payload: Seq<u8>,
    from: SocketAddr,
    socket: Option<ServiceKey>,
    transport: Transport,
    reply: ChannelId,
) -> Seq<ActionView> {
    match addressee(s, header, socket) {
        None => seq![
            ActionView::SendClientMessage {
                data: refusal_bytes(header, 0x02, false),
                target: from,
                transport,
            },
        ],
        Some((key, offered)) => {
            let uses_exception = offered.method_config@.contains(header.method_id);
            let sender = offered.sender(transport);
            if header.method_id >= 0x8000 {
                if sender is Some {
                    seq![
                        ActionView::SendServerMessage {
                            service_key: key,
                            data: refusal_bytes(header, 0x09, uses_exception),
                            target: from,
                            transport,
                        },
                    ]
                } else {
                    Seq::empty()
                }
            } else {
                seq![
                    ActionView::DeliverRequest {
                        to: offered.requests_tx,
                        request: ServiceRequestView::MethodCall {
                            method_id: header.method_id,
                            payload,
                            client: from,
                            transport,
                            response: reply,
                        },
                        context: match sender {
                            Some(rpc_transport) => Some(
                                response_context(
                                    header,
                                    key.instance_id,
                                    from,
                                    uses_exception,
                                    rpc_transport,
                                ),
                            ),
                            None => None,
                        },
                        reply,
                    },
                ]
            }
        },
    }
}

/// Handles a request, which may have come on the socket of a service; `reply` is where its
/// answer will arrive.
pub fn handle_incoming_request(
    header: &Header,
    payload: bytes::Bytes,
    from: SocketAddr,
    state: &RuntimeState,
    actions: &mut Vec<Action>,
    service_key: Option<ServiceKey>,
    transport: Transport,
    reply: ChannelId,
)
    requires
        state@.wf(),
    ensures
        views(final(actions)@) == views(old(actions)@) + request_actions(
            state@,
            *header,
            content(payload),
            from,
            service_key,
            transport,
            reply,
        ),
{
    let ghost before = views(actions@);
    let ghost all = request_actions(
        state@,
        *header,
        content(payload),
        from,
        service_key,
        transport,
        reply,
    );
    match find_addressee(state, header, service_key) {
        None => {
            let data = refuse_request(header, 0x02, false);
            push(actions, Action::SendClientMessage { data, target: from, transport });
        },
        Some(i) => {
            let key = state.offered.key_at(i);
            let offered = state.offered.value_at(i);
            let uses_exception: bool = offered.method_config.uses_exception(header.method_id);
            let sender = offered.transport_sender(transport);
            if header.method_id >= 0x8000 {
                if sender.is_some() {
                    let data = refuse_request(header, 0x09, uses_exception);
                    push(
                        actions,
                        Action::SendServerMessage {
                            service_key: key,
                            data,
                            target: from,
                            transport,
                        },
                    );
                }
            } else {
                let context = match sender {
                    Some(rpc_transport) => Some(
                        PendingServerResponse {
                            service_id: header.service_id,
                            instance_id: key.instance_id,
                            method_id: header.method_id,
                            client_id: header.client_id,
                            session_id: header.session_id,
                            interface_version: header.interface_version,
                            client_addr: from,
                            uses_exception,
                            rpc_transport,
                        },
                    ),
                    None => None,
                };
                let request = ServiceRequest::MethodCall {
                    method_id: header.method_id,
                    payload,
                    client: from,
                    transport,
                    response: reply,
                };
                push(
                    actions,
                    Action::DeliverRequest { to: offered.requests_tx, request, context, reply },
                );
            }
        },
    }
    assert(views(actions@) =~= before + all);
}

/// Goes on with a request that its service has taken, or not: the answer to one that was
/// taken is awaited, where it can be sent.
pub fn request_delivered(
    delivered: bool,
    context: Option<PendingServerResponse>,
    reply: ChannelId,
    actions: &mut Vec<Action>,
)
    ensures
        views(final(actions)@) == (match context {
            Some(c) => if delivered {
                views(old(actions)@).push(
                    ActionView::TrackServerResponse { context: c, receiver: reply },
                )
            } else {
                views(old(actions)@)
            },
            None => views(old(actions)@),
        }),
{
    if delivered {
        if let Some(context) = context {
            push(actions, Action::TrackServerResponse { context, receiver: reply });
        }
    }
}

/// What a request without answer does: it goes to the service that it is for, if any.
pub open spec fn fire_forget_actions(
    s: StateView,
    header: Header,
    payload: Seq<u8>,
    from: SocketAddr,
    socket: Option<ServiceKey>,
) -> Seq<ActionView> {
    match addressee(s, header, socket) {
        None => Seq::empty(),
        Some((_, offered)) => seq![
            ActionView::Deliver {
                to: offered.requests_tx,
                message: DeliveryView::Request(
                    ServiceRequestView::FireForget {
                        method_id: header.method_id,
                        payload,
                        client: from,
                        transport: Transport::Udp,
                    },
                ),
            },
        ],
    }
}

/// Handles a request without answer.
pub fn handle_incoming_fire_forget(
    header: &Header,
    payload: bytes::Bytes,
    from: SocketAddr,
    state: &RuntimeState,
    actions: &mut Vec<Action>,
    service_key: Option<ServiceKey>,
)
    requires
        state@.wf(),
    ensures
        views(final(actions)@) == views(old(actions)@) + fire_forget_actions(
            state@,
            *header,
            content(payload),
            from,
            service_key,
        ),
{
    let ghost before = views(actions@);
    let ghost all = fire_forget_actions(state@, *header, content(payload), from, service_key);
    if let Some(i) = find_addressee(state, header, service_key) {
        let offered = state.offered.value_at(i);
        let request = ServiceRequest::FireForget {
            method_id: header.method_id,
            payload,
            client: from,
            transport: Transport::Udp,
        };
        push(
            actions,
            Action::Deliver { to: offered.requests_tx, message: Delivery::Request(request) },
        );
    }
    assert(views(actions@) =~= before + all);
}

} // verus!
