//! What holds of subscriptions as messages: what a client asks for, what the server makes of it,
//! and what the client makes of the answer.

use crate::config::Transport;
use crate::discovery::{first_endpoint, L4Protocol, SdEntry, SdMessageView};
use crate::message::{ChannelId, DeliveryView, ServiceRequestView};
use crate::net::{IpAddr, Ipv4Addr, SocketAddr};
use crate::runtime::action::ActionView;
use crate::runtime::cluster::clustered;
use crate::runtime::event_loop::{carried_out, reaction, LoopEvent, LoopView};
use crate::runtime::execute::EffectView;
use crate::runtime::incoming::{entry_handled, session_noted, shows_reboot};
use crate::runtime::reader_laws::spoken_of;
use crate::runtime::reading::{
    lemma_noted, lemma_one_entry_read, lemma_read, lemma_told, message_in, session_in,
};
use crate::runtime::sd::{subscribe_message, subscription_names_its_endpoint};
use crate::runtime::state::{
    ServerSubscription, ServiceKey, StateView, SubscriberKey, SubscriberSlot,
};
use crate::table::{has_key, lemma_put, lemma_without, lookup, put, without};
use vstd::prelude::*;

verus! {

/// The protocol under which an endpoint of a transport is named.
pub open spec fn protocol_for(transport: Transport) -> L4Protocol {
    match transport {
        Transport::Udp => L4Protocol::Udp,
        Transport::Tcp => L4Protocol::Tcp,
    }
}

/// The other transport.
pub open spec fn other_than(transport: Transport) -> Transport {
    match transport {
        Transport::Udp => Transport::Tcp,
        Transport::Tcp => Transport::Udp,
    }
}

/// The address that a message names for a host.
pub open spec fn named_ip(ip: IpAddr) -> IpAddr {
    match ip {
        IpAddr::V4(_) => ip,
        IpAddr::V6(_) => IpAddr::V4(Ipv4Addr { a: 127, b: 0, c: 0, d: 1 }),
    }
}

/// An entry asks for the events of an eventgroup, for a lifetime, at one endpoint.
pub open spec fn entry_asks(
    m: SdMessageView,
    e: SdEntry,
    key: ServiceKey,
    eventgroup_id: u16,
    ttl: u32,
    at: SocketAddr,
    transport: Transport,
) -> bool {
    &&& e.entry_type is SubscribeEventgroup
    &&& spoken_of(e) == key
    &&& e.eventgroup_id == eventgroup_id
    &&& e.ttl == ttl
    &&& e.counter == 0
    &&& m.endpoint_of(e, protocol_for(transport)) == Some(
        SocketAddr { ip: named_ip(at.ip), port: at.port },
    )
    &&& m.endpoint_of(e, protocol_for(other_than(transport))) is None
}

/// A message that asks for eventgroups says so, and can be read.
pub proof fn lemma_subscribe_says(
    key: ServiceKey,
    groups: Seq<u16>,
    at: SocketAddr,
    flags: u8,
    ttl: u32,
    transport: Transport,
)
    requires
        groups.len() <= 0x100_0000,
    ensures
        ({
            let m = subscribe_message(key, groups, at.ip, at.port, flags, ttl, transport);
            &&& m.flags == flags
            &&& m.entries.len() == groups.len()
            &&& forall|j: int|
                0 <= j < groups.len() ==> entry_asks(
                    m,
                    #[trigger] m.entries[j],
                    key,
                    groups[j],
                    ttl,
                    at,
                    transport,
                )
            &&& ttl <= 0xFF_FFFF ==> forall|session: u16| #[trigger]
                message_in(m.bytes(session)) == Some(m)
        }),
{
    let m = subscribe_message(key, groups, at.ip, at.port, flags, ttl, transport);
    assert forall|j: int| 0 <= j < groups.len() implies entry_asks(
        m,
        #[trigger] m.entries[j],
        key,
        groups[j],
        ttl,
        at,
        transport,
    ) by {
        subscription_names_its_endpoint(key, groups, at.ip, at.port, flags, ttl, transport, j);
        let options = m.options_of(m.entries[j]);
        assert(options =~= m.options);
        assert(options.skip(1) =~= Seq::empty());
        reveal_with_fuel(first_endpoint, 2);
    }
    crate::discovery::sd_payload_size(m);
    if ttl <= 0xFF_FFFF {
        assert forall|session: u16| #[trigger] message_in(m.bytes(session)) == Some(m) by {
            lemma_read(m, session);
        }
    }
}

/// Where a client that asks for an eventgroup gets its events.
pub open spec fn slot_at(e: SdEntry, endpoint: SocketAddr) -> SubscriberSlot {
    SubscriberSlot {
        group: SubscriberKey {
            service_id: e.service_id,
            instance_id: e.instance_id,
            major_version: e.major_version,
            eventgroup_id: e.eventgroup_id,
        },
        endpoint,
    }
}

/// The endpoint names a host.
pub open spec fn names_host(endpoint: SocketAddr) -> bool {
    endpoint.ip != IpAddr::V4(Ipv4Addr { a: 0, b: 0, c: 0, d: 0 }) && endpoint.ip != IpAddr::V6(0)
}

/// A server can send the events that an entry asks for to an endpoint: the service is offered over
/// the transport of the endpoint, and the entry names the endpoint and only hosts; UDP comes
/// before TCP.
pub open spec fn can_serve(
    s: StateView,
    m: SdMessageView,
    e: SdEntry,
    endpoint: SocketAddr,
    transport: Transport,
) -> bool {
    let udp = m.endpoint_of(e, L4Protocol::Udp);
    let tcp = m.endpoint_of(e, L4Protocol::Tcp);
    &&& udp matches Some(ep) ==> names_host(ep)
    &&& tcp matches Some(ep) ==> names_host(ep)
    &&& lookup(s.offered, spoken_of(e)) matches Some(o) && (match transport {
        Transport::Udp => o.udp_endpoint is Some && udp == Some(endpoint),
        Transport::Tcp => o.tcp_endpoint is Some && tcp == Some(endpoint) && !(
        o.udp_endpoint is Some && udp is Some),
    })
}

/// An answer to a subscription: one entry for the same eventgroup, which can be read.
pub open spec fn answers(a: ActionView, to: SocketAddr, e: SdEntry, ttl: u32) -> bool {
    let m = a->SendSd_message;
    let r = m.entries[0];
    &&& a == (ActionView::SendSd { message: m, target: to })
    &&& m.flags & 0x40 != 0
    &&& m.entries.len() == 1
    &&& r.entry_type is SubscribeEventgroupAck
    &&& spoken_of(r) == spoken_of(e)
    &&& r.eventgroup_id == e.eventgroup_id
    &&& r.counter == e.counter
    &&& r.ttl == ttl
    &&& ttl <= 0xFF_FFFF && e.counter < 16 ==> forall|session: u16| #[trigger]
        message_in(m.bytes(session)) == Some(m)
}

proof fn lemma_answer_says(e: SdEntry, flags: u8, ttl: u32, to: SocketAddr)
    requires
        ttl == e.ttl || ttl == 0,
        flags & 0x40 != 0,
    ensures
        answers(
            ActionView::SendSd {
                message: if ttl == 0 {
                    crate::runtime::sd_server::nack_message(e, flags)
                } else {
                    crate::runtime::sd_server::ack_message(e, flags)
                },
                target: to,
            },
            to,
            e,
            ttl,
        ),
{
    let m = if ttl == 0 {
        crate::runtime::sd_server::nack_message(e, flags)
    } else {
        crate::runtime::sd_server::ack_message(e, flags)
    };
    assert(m.entries.len() == 1);
    crate::discovery::sd_payload_size(m);
    if ttl <= 0xFF_FFFF && e.counter < 16 {
        assert forall|session: u16| #[trigger] message_in(m.bytes(session)) == Some(m) by {
            lemma_read(m, session);
        }
    }
}

proof fn lemma_taken(
    s: StateView,
    m: SdMessageView,
    e: SdEntry,
    from: SocketAddr,
    now: u64,
    endpoint: SocketAddr,
    transport: Transport,
)
    requires
        s.wf(),
        e.entry_type is SubscribeEventgroup,
        can_serve(s, m, e, endpoint, transport),
    ensures
        crate::runtime::sd_server::accepted(s, e, m) == Some(
            (lookup(s.offered, spoken_of(e))->0, endpoint, transport),
        ),
{
}

proof fn lemma_subscribe_entry(
    s: StateView,
    m: SdMessageView,
    e: SdEntry,
    from: SocketAddr,
    now: u64,
)
    requires
        e.entry_type is SubscribeEventgroup,
    ensures
        entry_handled(s, Seq::empty(), m, e, from, now) == (if e.ttl == 0 {
            (
                crate::runtime::sd_server::after_unsubscribe(s, e, m),
                crate::runtime::sd_server::unsubscribe_actions(s, e, m),
            )
        } else {
            (
                crate::runtime::sd_server::after_subscribe(s, e, m, from, now),
                crate::runtime::sd_server::subscribe_actions(s, e, m),
            )
        }),
{
    let a = crate::runtime::sd_server::unsubscribe_actions(s, e, m);
    let b = crate::runtime::sd_server::subscribe_actions(s, e, m);
    assert(Seq::<ActionView>::empty() + a =~= a);
    assert(Seq::<ActionView>::empty() + b =~= b);
}

proof fn lemma_subscription_handled(
    s: StateView,
    m: SdMessageView,
    e: SdEntry,
    from: SocketAddr,
    now: u64,
    endpoint: SocketAddr,
    transport: Transport,
)
    requires
        s.wf(),
        e.entry_type is SubscribeEventgroup,
        e.ttl > 0,
        can_serve(s, m, e, endpoint, transport),
    ensures
        ({
            let (t, acts) = entry_handled(s, Seq::empty(), m, e, from, now);
            let slot = slot_at(e, endpoint);
            let made = ServerSubscription {
                transport,
                expires_at: if e.ttl == 0xFF_FFFF {
                    None
                } else {
                    Some((now + e.ttl * 1_000_000_000) as u128)
                },
            };
            &&& t.server_subscribers == put(s.server_subscribers, slot, made)
            &&& t.pending_unicast_sd.len() == s.pending_unicast_sd.len() + 1
            &&& t.pending_unicast_sd.drop_last() == s.pending_unicast_sd
            &&& answers(t.pending_unicast_sd.last(), from, e, e.ttl)
            &&& t == (StateView {
                server_subscribers: t.server_subscribers,
                pending_unicast_sd: t.pending_unicast_sd,
                pending_unicast_sd_deadline: t.pending_unicast_sd_deadline,
                ..s
            })
            &&& carried_out((t, clustered(acts))) == (
                t,
                if has_key(s.server_subscribers, slot) {
                    Seq::<EffectView>::empty()
                } else {
                    seq![
                        EffectView::Deliver {
                            to: lookup(s.offered, spoken_of(e))->0.requests_tx,
                            message: DeliveryView::Request(
                                ServiceRequestView::Subscribe {
                                    eventgroup_id: e.eventgroup_id,
                                    client: endpoint,
                                    transport,
                                },
                            ),
                        },
                    ]
                },
            )
        }),
{
    lemma_taken(s, m, e, from, now, endpoint, transport);
    crate::runtime::state::flag_laws(s, true);
    lemma_answer_says(e, s.flags(true), e.ttl, from);
    lemma_subscribe_entry(s, m, e, from, now);
    let t = crate::runtime::sd_server::after_subscribe(s, e, m, from, now);
    let to = lookup(s.offered, spoken_of(e))->0.requests_tx;
    let message = DeliveryView::Request(
        ServiceRequestView::Subscribe {
            eventgroup_id: e.eventgroup_id,
            client: endpoint,
            transport,
        },
    );
    let expected = if has_key(s.server_subscribers, slot_at(e, endpoint)) {
        Seq::<ActionView>::empty()
    } else {
        seq![ActionView::Deliver { to, message }]
    };
    assert(crate::runtime::sd_server::subscribe_actions(s, e, m) =~= expected);
    assert(t.pending_unicast_sd.drop_last() =~= s.pending_unicast_sd);
    lemma_told(t, to, message);
}

/// A server that can serve a subscription takes it: from then on the client's endpoint gets the
/// events of the eventgroup over its transport, until the lifetime that was asked for has passed;
/// the acknowledgement to the sender is queued, and the service hears of a client that was not
/// subscribed. Other subscribers stay as they were.
pub proof fn a_subscription_is_taken(
    l: LoopView,
    data: Vec<u8>,
    m: SdMessageView,
    from: SocketAddr,
    now: u64,
    reply: ChannelId,
    endpoint: SocketAddr,
    transport: Transport,
    other: SubscriberSlot,
)
    requires
        l.wf(),
        message_in(data@) == Some(m),
        m.entries.len() == 1,
        m.entries[0].entry_type is SubscribeEventgroup,
        m.entries[0].ttl > 0,
        can_serve(l.state, m, m.entries[0], endpoint, transport),
        !shows_reboot(l.state, from.ip, m.flags, session_in(data@)),
    ensures
        ({
            let (after, effects) = reaction(l, LoopEvent::SdPacket { data, from }, now, reply);
            let s = l.state;
            let t = after.state;
            let e = m.entries[0];
            let slot = slot_at(e, endpoint);
            &&& lookup(t.server_subscribers, slot) == Some(
                ServerSubscription {
                    transport,
                    expires_at: if e.ttl == 0xFF_FFFF {
                        None
                    } else {
                        Some((now + e.ttl * 1_000_000_000) as u128)
                    },
                },
            )
            &&& other != slot ==> lookup(t.server_subscribers, other) == lookup(
                s.server_subscribers,
                other,
            )
            &&& t.pending_unicast_sd.len() == s.pending_unicast_sd.len() + 1
            &&& t.pending_unicast_sd.drop_last() == s.pending_unicast_sd
            &&& answers(t.pending_unicast_sd.last(), from, e, e.ttl)
            &&& effects == (if has_key(s.server_subscribers, slot) {
                Seq::<EffectView>::empty()
            } else {
                seq![
                    EffectView::Deliver {
                        to: lookup(s.offered, spoken_of(e))->0.requests_tx,
                        message: DeliveryView::Request(
                            ServiceRequestView::Subscribe {
                                eventgroup_id: e.eventgroup_id,
                                client: endpoint,
                                transport,
                            },
                        ),
                    },
                ]
            })
            &&& t == (StateView {
                server_subscribers: t.server_subscribers,
                peer_sessions: t.peer_sessions,
                pending_unicast_sd: t.pending_unicast_sd,
                pending_unicast_sd_deadline: t.pending_unicast_sd_deadline,
                ..s
            })
        }),
{
    let s = l.state;
    let e = m.entries[0];
    let noted = session_noted(s, from.ip, m.flags, session_in(data@));
    lemma_noted(s, from.ip, m.flags, session_in(data@));
    lemma_one_entry_read(l, data, m, from, now, reply);
    lemma_subscription_handled(noted, m, e, from, now, endpoint, transport);
    let made = ServerSubscription {
        transport,
        expires_at: if e.ttl == 0xFF_FFFF {
            None
        } else {
            Some((now + e.ttl * 1_000_000_000) as u128)
        },
    };
    lemma_put(s.server_subscribers, slot_at(e, endpoint), made);
}

/// A server that cannot serve a subscription, because the service is not offered, an endpoint
/// names no host, or no endpoint is named for a transport over which the service is offered,
/// refuses it: the refusal to the sender is queued, and nothing else changes.
pub proof fn a_subscription_is_refused(
    l: LoopView,
    data: Vec<u8>,
    m: SdMessageView,
    from: SocketAddr,
    now: u64,
    reply: ChannelId,
)
    requires
        l.wf(),
        message_in(data@) == Some(m),
        m.entries.len() == 1,
        m.entries[0].entry_type is SubscribeEventgroup,
        m.entries[0].ttl > 0,
        forall|endpoint: SocketAddr, transport: Transport|
            !#[trigger] can_serve(l.state, m, m.entries[0], endpoint, transport),
        !shows_reboot(l.state, from.ip, m.flags, session_in(data@)),
    ensures
        ({
            let (after, effects) = reaction(l, LoopEvent::SdPacket { data, from }, now, reply);
            let s = l.state;
            let t = after.state;
            &&& effects.len() == 0
            &&& t.pending_unicast_sd.len() == s.pending_unicast_sd.len() + 1
            &&& t.pending_unicast_sd.drop_last() == s.pending_unicast_sd
            &&& answers(t.pending_unicast_sd.last(), from, m.entries[0], 0)
            &&& t == (StateView {
                peer_sessions: t.peer_sessions,
                pending_unicast_sd: t.pending_unicast_sd,
                pending_unicast_sd_deadline: t.pending_unicast_sd_deadline,
                ..s
            })
        }),
{
    let s = l.state;
    let e = m.entries[0];
    let noted = session_noted(s, from.ip, m.flags, session_in(data@));
    lemma_noted(s, from.ip, m.flags, session_in(data@));
    lemma_one_entry_read(l, data, m, from, now, reply);
    assert forall|endpoint: SocketAddr, transport: Transport|
        !#[trigger] can_serve(noted, m, e, endpoint, transport) by {
        assert(!can_serve(s, m, e, endpoint, transport));
    }
    lemma_subscription_refused(noted, m, e, from, now);
}

proof fn lemma_subscription_refused(
    s: StateView,
    m: SdMessageView,
    e: SdEntry,
    from: SocketAddr,
    now: u64,
)
    requires
        s.wf(),
        e.entry_type is SubscribeEventgroup,
        e.ttl > 0,
        forall|endpoint: SocketAddr, transport: Transport|
            !#[trigger] can_serve(s, m, e, endpoint, transport),
    ensures
        ({
            let (t, acts) = entry_handled(s, Seq::empty(), m, e, from, now);
            &&& t.pending_unicast_sd.len() == s.pending_unicast_sd.len() + 1
            &&& t.pending_unicast_sd.drop_last() == s.pending_unicast_sd
            &&& answers(t.pending_unicast_sd.last(), from, e, 0)
            &&& t == (StateView {
                pending_unicast_sd: t.pending_unicast_sd,
                pending_unicast_sd_deadline: t.pending_unicast_sd_deadline,
                ..s
            })
            &&& carried_out((t, clustered(acts))) == (t, Seq::<EffectView>::empty())
        }),
{
    if let Some((o, ep, transport)) = crate::runtime::sd_server::accepted(s, e, m) {
        assert(can_serve(s, m, e, ep, transport));
    }
    crate::runtime::state::flag_laws(s, true);
    lemma_answer_says(e, s.flags(true), 0, from);
    lemma_subscribe_entry(s, m, e, from, now);
    let t = crate::runtime::sd_server::after_subscribe(s, e, m, from, now);
    assert(t.pending_unicast_sd.drop_last() =~= s.pending_unicast_sd);
    lemma_told(t, 0, DeliveryView::HasSubscribers(true));
}

proof fn lemma_withdrawal_handled(
    s: StateView,
    m: SdMessageView,
    e: SdEntry,
    from: SocketAddr,
    now: u64,
    endpoint: SocketAddr,
    transport: Transport,
)
    requires
        s.wf(),
        e.entry_type is SubscribeEventgroup,
        e.ttl == 0,
        can_serve(s, m, e, endpoint, transport),
    ensures
        ({
            let (t, acts) = entry_handled(s, Seq::empty(), m, e, from, now);
            &&& t == (StateView {
                server_subscribers: without(s.server_subscribers, slot_at(e, endpoint)),
                ..s
            })
            &&& carried_out((t, clustered(acts))) == (
                t,
                seq![
                    EffectView::Deliver {
                        to: lookup(s.offered, spoken_of(e))->0.requests_tx,
                        message: DeliveryView::Request(
                            ServiceRequestView::Unsubscribe {
                                eventgroup_id: e.eventgroup_id,
                                client: endpoint,
                                transport,
                            },
                        ),
                    },
                ],
            )
        }),
{
    lemma_taken(s, m, e, from, now, endpoint, transport);
    lemma_subscribe_entry(s, m, e, from, now);
    let t = crate::runtime::sd_server::after_unsubscribe(s, e, m);
    let to = lookup(s.offered, spoken_of(e))->0.requests_tx;
    let message = DeliveryView::Request(
        ServiceRequestView::Unsubscribe {
            eventgroup_id: e.eventgroup_id,
            client: endpoint,
            transport,
        },
    );
    assert(crate::runtime::sd_server::unsubscribe_actions(s, e, m) =~= seq![
        ActionView::Deliver { to, message },
    ]);
    lemma_told(t, to, message);
}

/// A server that reads the withdrawal of a subscription no longer sends the events of the
/// eventgroup to the endpoint, and the service hears of it; nothing is answered, and other
/// subscribers stay as they were.
pub proof fn an_unsubscription_is_taken(
    l: LoopView,
    data: Vec<u8>,
    m: SdMessageView,
    from: SocketAddr,
    now: u64,
    reply: ChannelId,
    endpoint: SocketAddr,
    transport: Transport,
    other: SubscriberSlot,
)
    requires
        l.wf(),
        message_in(data@) == Some(m),
        m.entries.len() == 1,
        m.entries[0].entry_type is SubscribeEventgroup,
        m.entries[0].ttl == 0,
        can_serve(l.state, m, m.entries[0], endpoint, transport),
        !shows_reboot(l.state, from.ip, m.flags, session_in(data@)),
    ensures
        ({
            let (after, effects) = reaction(l, LoopEvent::SdPacket { data, from }, now, reply);
            let s = l.state;
            let t = after.state;
            let e = m.entries[0];
            let slot = slot_at(e, endpoint);
            &&& !has_key(t.server_subscribers, slot)
            &&& other != slot ==> lookup(t.server_subscribers, other) == lookup(
                s.server_subscribers,
                other,
            )
            &&& effects == seq![
                EffectView::Deliver {
                    to: lookup(s.offered, spoken_of(e))->0.requests_tx,
                    message: DeliveryView::Request(
                        ServiceRequestView::Unsubscribe {
                            eventgroup_id: e.eventgroup_id,
                            client: endpoint,
                            transport,
                        },
                    ),
                },
            ]
            &&& t == (StateView {
                server_subscribers: t.server_subscribers,
                peer_sessions: t.peer_sessions,
                ..s
            })
        }),
{
    let s = l.state;
    let e = m.entries[0];
    let noted = session_noted(s, from.ip, m.flags, session_in(data@));
    lemma_noted(s, from.ip, m.flags, session_in(data@));
    lemma_one_entry_read(l, data, m, from, now, reply);
    lemma_withdrawal_handled(noted, m, e, from, now, endpoint, transport);
    lemma_without(s.server_subscribers, slot_at(e, endpoint));
}

} // verus!
