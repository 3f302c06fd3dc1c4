//! Service discovery on the side that offers services: searches and subscriptions.

use crate::config::{Transport, SD_TTL_INFINITE};
use crate::discovery::{L4Protocol, SdEntry, SdEntryType, SdMessage, SdMessageView};
use crate::message::{Delivery, DeliveryView, ServiceRequest, ServiceRequestView};
use crate::net::SocketAddr;
use crate::runtime::action::{push, views, Action, ActionView};
use crate::runtime::sd::{build_offer_message, offer_message, single_entry};
use crate::runtime::state::{
    OfferedService, RuntimeState, ServerSubscription, ServiceKey, StateView, SubscriberKey,
    SubscriberSlot, SECOND,
};
use crate::table::{has_key, lookup, put, without};
use vstd::prelude::*;

verus! {

/// The service that an entry names.
pub open spec fn entry_key(entry: SdEntry) -> ServiceKey {
    ServiceKey {
        service_id: entry.service_id,
        instance_id: entry.instance_id,
        major_version: entry.major_version,
    }
}

/// The service that an entry names.
pub fn key_of(entry: &SdEntry) -> (r: ServiceKey)
    ensures
        r == entry_key(*entry),
{
    ServiceKey {
        service_id: entry.service_id,
        instance_id: entry.instance_id,
        major_version: entry.major_version,
    }
}

/// The eventgroup that an entry names.
pub open spec fn entry_group(entry: SdEntry) -> SubscriberKey {
    SubscriberKey {
        service_id: entry.service_id,
        instance_id: entry.instance_id,
        major_version: entry.major_version,
        eventgroup_id: entry.eventgroup_id,
    }
}

fn group_of(entry: &SdEntry) -> (r: SubscriberKey)
    ensures
        r == entry_group(*entry),
{
    SubscriberKey {
        service_id: entry.service_id,
        instance_id: entry.instance_id,
        major_version: entry.major_version,
        eventgroup_id: entry.eventgroup_id,
    }
}

/// A search that an offered service answers: it is announced, and the service and the
/// instance are those searched. The version is not looked at.
pub open spec fn answers_find(key: ServiceKey, offered: OfferedService, entry: SdEntry) -> bool {
    &&& offered.is_announcing
    &&& entry.service_id == key.service_id
    &&& entry.instance_id == 0xFFFF || entry.instance_id == key.instance_id
}

/// The state after the first `n` offered services have answered a search.
pub open spec fn find_answered(
    s: StateView,
    entry: SdEntry,
    from: SocketAddr,
    now: u64,
    n: int,
) -> StateView
    decreases n,
{
    if n <= 0 {
        s
    } else {
        let before = find_answered(s, entry, from, now, n - 1);
        let (key, offered) = s.offered[n - 1];
        if answers_find(key, offered, entry) {
            before.queued(
                offer_message(
                    key,
                    offered,
                    s.flags(true),
                    s.config.offer_ttl,
                    s.config.advertised_ip,
                ),
                from,
                now,
            )
        } else {
            before
        }
    }
}

/// Answers a search: every offered service that it matches is offered to the sender.
pub fn handle_find_request(entry: &SdEntry, from: SocketAddr, state: &mut RuntimeState, now: u64)
    requires
        old(state)@.wf(),
    ensures
        final(state)@ == find_answered(
            old(state)@,
            *entry,
            from,
            now,
            old(state)@.offered.len() as int,
        ),
        final(state)@.wf(),
{
    let ghost s = state@;
    let flags: u8 = state.sd_flags(true);
    let mut i: usize = 0;
    while i < state.offered.len()
        invariant
            0 <= i <= s.offered.len(),
            flags == s.flags(true),
            state@ == find_answered(s, *entry, from, now, i as int),
            state@.offered == s.offered,
            state@.config == s.config,
            state@.wf(),
        decreases s.offered.len() - i,
    {
        let key = state.offered.key_at(i);
        let offered = state.offered.value_at(i);
        if offered.is_announcing && entry.service_id == key.service_id && (entry.instance_id
            == 0xFFFF || entry.instance_id == key.instance_id) {
            let message = build_offer_message(
                key,
                offered,
                flags,
                state.config.offer_ttl,
                state.config.advertised_ip,
            );
            state.queue_unicast_sd(message, from, now);
        }
        i += 1;
    }
}

/// The refusal of a subscription.
pub open spec fn nack_message(entry: SdEntry, sd_flags: u8) -> SdMessageView {
    single_entry(
        sd_flags,
        SdEntry::of_eventgroup(
            SdEntryType::SubscribeEventgroupAck,
            entry.service_id,
            entry.instance_id,
            entry.major_version,
            entry.eventgroup_id,
            0,
            entry.counter,
        ),
    )
}

/// The acceptance of a subscription, for the lifetime that was asked for.
pub open spec fn ack_message(entry: SdEntry, sd_flags: u8) -> SdMessageView {
    single_entry(
        sd_flags,
        SdEntry::of_eventgroup(
            SdEntryType::SubscribeEventgroupAck,
            entry.service_id,
            entry.instance_id,
            entry.major_version,
            entry.eventgroup_id,
            entry.ttl,
            entry.counter,
        ),
    )
}

/// An endpoint that names no host.
pub open spec fn names_no_host(ep: Option<SocketAddr>) -> bool {
    ep matches Some(addr) && addr.ip.unspecified()
}

/// Where and how a client receives events: over UDP where both sides have it, or else over
/// TCP where both sides have that. `None` where an endpoint names no host, or there is no
/// common transport.
pub open spec fn event_endpoint(
    offered: OfferedService,
    entry: SdEntry,
    m: SdMessageView,
) -> Option<(SocketAddr, Transport)> {
    let udp = m.endpoint_of(entry, L4Protocol::Udp);
    let tcp = m.endpoint_of(entry, L4Protocol::Tcp);
    if names_no_host(udp) || names_no_host(tcp) {
        None
    } else if offered.udp_endpoint is Some && udp is Some {
        Some((udp->0, Transport::Udp))
    } else if offered.tcp_endpoint is Some && tcp is Some {
        Some((tcp->0, Transport::Tcp))
    } else {
        None
    }
}

fn choose_event_endpoint(offered: &OfferedService, entry: &SdEntry, m: &SdMessage) -> (r: Option<
    (SocketAddr, Transport),
>)
    ensures
        r == event_endpoint(*offered, *entry, m@),
{
    let udp = m.get_udp_endpoint(entry);
    let tcp = m.get_tcp_endpoint(entry);
    if let Some(ep) = udp {
        if ep.ip.is_unspecified() {
            return None;
        }
    }
    if let Some(ep) = tcp {
        if ep.ip.is_unspecified() {
            return None;
        }
    }
    if offered.udp_endpoint.is_some() {
        if let Some(ep) = udp {
            return Some((ep, Transport::Udp));
        }
    }
    if offered.tcp_endpoint.is_some() {
        if let Some(ep) = tcp {
            return Some((ep, Transport::Tcp));
        }
    }
    None
}

/// When a subscription ends; the largest lifetime never does.
pub open spec fn expiry(ttl: u32, now: u64) -> Option<u128> {
    if ttl == SD_TTL_INFINITE {
        None
    } else {
        Some((now + ttl * SECOND) as u128)
    }
}

/// The subscription that an entry asks for, if it is accepted: the offered service, and
/// where and how events go.
pub open spec fn accepted(s: StateView, entry: SdEntry, m: SdMessageView) -> Option<
    (OfferedService, SocketAddr, Transport),
> {
    match lookup(s.offered, entry_key(entry)) {
        Some(offered) => match event_endpoint(offered, entry, m) {
            Some((ep, transport)) => Some((offered, ep, transport)),
            None => None,
        },
        None => None,
    }
}

/// Where an entry's client receives events.
pub open spec fn slot_of(entry: SdEntry, ep: SocketAddr) -> SubscriberSlot {
    SubscriberSlot { group: entry_group(entry), endpoint: ep }
}

/// The state after a subscription request: an accepted one is stored or renewed and
/// acknowledged, any other one is refused.
pub open spec fn after_subscribe(
    s: StateView,
    entry: SdEntry,
    m: SdMessageView,
    from: SocketAddr,
    now: u64,
) -> StateView {
    match accepted(s, entry, m) {
        Some((offered, ep, transport)) => StateView {
            server_subscribers: put(
                s.server_subscribers,
                slot_of(entry, ep),
                ServerSubscription { transport, expires_at: expiry(entry.ttl, now) },
            ),
            ..s
        }.queued(ack_message(entry, s.flags(true)), from, now),
        None => s.queued(nack_message(entry, s.flags(true)), from, now),
    }
}

/// What a subscription request does besides: the service hears of a new subscription, but
/// not of a renewal.
pub open spec fn subscribe_actions(s: StateView, entry: SdEntry, m: SdMessageView) -> Seq<
    ActionView,
> {
    match accepted(s, entry, m) {
        Some((offered, ep, transport)) => if has_key(s.server_subscribers, slot_of(entry, ep)) {
            Seq::empty()
        } else {
            seq![
                ActionView::Deliver {
                    to: offered.requests_tx,
                    message: DeliveryView::Request(
                        ServiceRequestView::Subscribe {
                            eventgroup_id: entry.eventgroup_id,
                            client: ep,
                            transport,
                        },
                    ),
                },
            ]
        },
        None => Seq::empty(),
    }
}

fn queue_nack(entry: &SdEntry, from: SocketAddr, state: &mut RuntimeState, now: u64)
    requires
        old(state)@.wf(),
    ensures
        final(state)@ == old(state)@.queued(
            nack_message(*entry, old(state)@.flags(true)),
            from,
            now,
        ),
        final(state)@.wf(),
{
    let mut nack = SdMessage::new(state.sd_flags(true));
    nack.add_entry(
        SdEntry::subscribe_eventgroup_nack(
            entry.service_id,
            entry.instance_id,
            entry.major_version,
            entry.eventgroup_id,
            entry.counter,
        ),
    );
    assert(nack@ =~= nack_message(*entry, state@.flags(true)));
    state.queue_unicast_sd(nack, from, now);
}

/// Handles a subscription request.
pub fn handle_subscribe_request(
    entry: &SdEntry,
    sd_message: &SdMessage,
    from: SocketAddr,
    state: &mut RuntimeState,
    actions: &mut Vec<Action>,
    now: u64,
)
    requires
        old(state)@.wf(),
    ensures
        final(state)@ == after_subscribe(old(state)@, *entry, sd_message@, from, now),
        views(final(actions)@) == views(old(actions)@) + subscribe_actions(
            old(state)@,
            *entry,
            sd_message@,
        ),
        final(state)@.wf(),
{
    let ghost s = state@;
    let ghost before = views(actions@);
    assert(before + Seq::<ActionView>::empty() =~= before);
    let key = key_of(entry);
    let (requests_tx, client_endpoint, transport) = match state.offered.get(&key) {
        Some(offered) => match choose_event_endpoint(offered, entry, sd_message) {
            Some((ep, transport)) => (offered.requests_tx, ep, transport),
            None => {
                queue_nack(entry, from, state, now);
                return;
            },
        },
        None => {
            queue_nack(entry, from, state, now);
            return;
        },
    };
    let expires_at: Option<u128> = if entry.ttl == SD_TTL_INFINITE {
        None
    } else {
        Some(now as u128 + entry.ttl as u128 * SECOND)
    };
    let slot = SubscriberSlot { group: group_of(entry), endpoint: client_endpoint };
    let is_new: bool = !state.server_subscribers.contains(&slot);
    state.server_subscribers.insert(slot, ServerSubscription { transport, expires_at });
    if is_new {
        push(
            actions,
            Action::Deliver {
                to: requests_tx,
                message: Delivery::Request(
                    ServiceRequest::Subscribe {
                        eventgroup_id: entry.eventgroup_id,
                        client: client_endpoint,
                        transport,
                    },
                ),
            },
        );
    }
    assert(views(actions@) =~= before + subscribe_actions(s, *entry, sd_message@));
    let mut ack = SdMessage::new(state.sd_flags(true));
    ack.add_entry(
        SdEntry::subscribe_eventgroup_ack(
            entry.service_id,
            entry.instance_id,
            entry.major_version,
            entry.eventgroup_id,
            entry.ttl,
            entry.counter,
        ),
    );
    assert(ack@ =~= ack_message(*entry, s.flags(true)));
    state.queue_unicast_sd(ack, from, now);
    assert(state@ =~= after_subscribe(s, *entry, sd_message@, from, now));
}

/// The state after the withdrawal of a subscription.
pub open spec fn after_unsubscribe(s: StateView, entry: SdEntry, m: SdMessageView) -> StateView {
    match accepted(s, entry, m) {
        Some((offered, ep, transport)) => StateView {
            server_subscribers: without(s.server_subscribers, slot_of(entry, ep)),
            ..s
        },
        None => s,
    }
}

/// What the withdrawal of a subscription does besides: the service hears of it.
pub open spec fn unsubscribe_actions(s: StateView, entry: SdEntry, m: SdMessageView) -> Seq<
    ActionView,
> {
    match accepted(s, entry, m) {
        Some((offered, ep, transport)) => seq![
            ActionView::Deliver {
                to: offered.requests_tx,
                message: DeliveryView::Request(
                    ServiceRequestView::Unsubscribe {
                        eventgroup_id: entry.eventgroup_id,
                        client: ep,
                        transport,
                    },
                ),
            },
        ],
        None => Seq::empty(),
    }
}

/// Handles the withdrawal of a subscription.
pub fn handle_unsubscribe_request(
    entry: &SdEntry,
    sd_message: &SdMessage,
    state: &mut RuntimeState,
    actions: &mut Vec<Action>,
)
    requires
        old(state)@.wf(),
    ensures
        final(state)@ == after_unsubscribe(old(state)@, *entry, sd_message@),
        views(final(actions)@) == views(old(actions)@) + unsubscribe_actions(
            old(state)@,
            *entry,
            sd_message@,
        ),
        final(state)@.wf(),
{
    let ghost s = state@;
    let ghost before = views(actions@);
    assert(before + Seq::<ActionView>::empty() =~= before);
    let key = key_of(entry);
    let (requests_tx, client_endpoint, transport) = match state.offered.get(&key) {
        Some(offered) => match choose_event_endpoint(offered, entry, sd_message) {
            Some((ep, transport)) => (offered.requests_tx, ep, transport),
            None => {
                return;
            },
        },
        None => {
            return;
        },
    };
    push(
        actions,
        Action::Deliver {
            to: requests_tx,
            message: Delivery::Request(
                ServiceRequest::Unsubscribe {
                    eventgroup_id: entry.eventgroup_id,
                    client: client_endpoint,
                    transport,
                },
            ),
        },
    );
    assert(views(actions@) =~= before + unsubscribe_actions(s, *entry, sd_message@));
    let slot = SubscriberSlot { group: group_of(entry), endpoint: client_endpoint };
    let _ = state.server_subscribers.remove(&slot);
    assert(state@ =~= after_unsubscribe(s, *entry, sd_message@));
}

/// A subscription request is answered with exactly one entry, which names the same
/// eventgroup and counter; it is a refusal exactly where the request is not accepted or
/// asks for no lifetime.
pub proof fn every_subscription_is_answered(
    s: StateView,
    entry: SdEntry,
    m: SdMessageView,
    from: SocketAddr,
    now: u64,
)
    ensures
        ({
            let q = after_subscribe(s, entry, m, from, now).pending_unicast_sd;
            let answer = q.last()->SendSd_message;
            &&& q.len() == s.pending_unicast_sd.len() + 1
            &&& q.drop_last() == s.pending_unicast_sd
            &&& q.last() is SendSd
            &&& q.last()->SendSd_target == from
            &&& answer.entries.len() == 1
            &&& answer.entries[0].entry_type is SubscribeEventgroupAck
            &&& entry_group(answer.entries[0]) == entry_group(entry)
            &&& answer.entries[0].counter == entry.counter
            &&& answer.entries[0].stops() <==> accepted(s, entry, m) is None || entry.ttl == 0
        }),
{
    let q = after_subscribe(s, entry, m, from, now).pending_unicast_sd;
    assert(q.drop_last() =~= s.pending_unicast_sd);
}

/// A client that subscribes and withdraws with the same endpoint is no longer subscribed,
/// and nobody else's subscription has changed.
pub proof fn unsubscribing_undoes_subscribing(
    s: StateView,
    entry: SdEntry,
    m: SdMessageView,
    stop: SdEntry,
    stop_m: SdMessageView,
    from: SocketAddr,
    now: u64,
    other: SubscriberSlot,
)
    requires
        s.wf(),
        accepted(s, entry, m) is Some,
        entry_group(stop) == entry_group(entry),
        stop_m.endpoint_of(stop, L4Protocol::Udp) == m.endpoint_of(entry, L4Protocol::Udp),
        stop_m.endpoint_of(stop, L4Protocol::Tcp) == m.endpoint_of(entry, L4Protocol::Tcp),
    ensures
        ({
            let (_, ep, transport) = accepted(s, entry, m)->0;
            let during = after_subscribe(s, entry, m, from, now);
            let after = after_unsubscribe(during, stop, stop_m);
            &&& lookup(during.server_subscribers, slot_of(entry, ep)) == Some(
                ServerSubscription { transport, expires_at: expiry(entry.ttl, now) },
            )
            &&& !has_key(after.server_subscribers, slot_of(entry, ep))
            &&& other != slot_of(entry, ep) ==> lookup(after.server_subscribers, other) == lookup(
                s.server_subscribers,
                other,
            ) && lookup(during.server_subscribers, other) == lookup(s.server_subscribers, other)
        }),
{
    let (_, ep, transport) = accepted(s, entry, m)->0;
    let slot = slot_of(entry, ep);
    let sub = ServerSubscription { transport, expires_at: expiry(entry.ttl, now) };
    crate::table::lemma_put(s.server_subscribers, slot, sub);
    let during = after_subscribe(s, entry, m, from, now);
    crate::table::lemma_without(during.server_subscribers, slot);
    assert(entry_key(stop) == entry_key(entry));
    assert(accepted(during, stop, stop_m) == accepted(s, entry, m));
}

/// A client that subscribes again keeps its one subscription, for the new lifetime, and
/// the service does not hear of it.
pub proof fn renewal_replaces_the_lifetime(
    s: StateView,
    entry: SdEntry,
    m: SdMessageView,
    from: SocketAddr,
    now: u64,
    later: u64,
)
    requires
        s.wf(),
    ensures
        ({
            let during = after_subscribe(s, entry, m, from, now);
            let after = after_subscribe(during, entry, m, from, later);
            &&& subscribe_actions(during, entry, m) == Seq::<ActionView>::empty()
            &&& after.server_subscribers.len() == during.server_subscribers.len()
            &&& accepted(s, entry, m) matches Some((_, ep, transport)) ==> lookup(
                after.server_subscribers,
                slot_of(entry, ep),
            ) == Some(ServerSubscription { transport, expires_at: expiry(entry.ttl, later) })
        }),
{
    if let Some((_, ep, transport)) = accepted(s, entry, m) {
        let slot = slot_of(entry, ep);
        let sub = ServerSubscription { transport, expires_at: expiry(entry.ttl, now) };
        crate::table::lemma_put(s.server_subscribers, slot, sub);
        let during = after_subscribe(s, entry, m, from, now);
        assert(accepted(during, entry, m) == accepted(s, entry, m));
        let renewed = ServerSubscription { transport, expires_at: expiry(entry.ttl, later) };
        crate::table::lemma_put(during.server_subscribers, slot, renewed);
    }
}

} // verus!
