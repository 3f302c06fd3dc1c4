//! What holds of a host that reads discovery messages: what an offer, a withdrawal or a search of
//! another host does, told by the fields of its entry alone.

use crate::config::Transport;
use crate::discovery::{L4Protocol, SdEntry, SdMessageView};
use crate::message::{ChannelId, DeliveryView, SdEvent, ServiceAvailability};
use crate::net::{IpAddr, SocketAddr};
use crate::runtime::action::ActionView;
use crate::runtime::cluster::clustered;
use crate::runtime::event_loop::{carried_out, reaction, LoopEvent, LoopView};
use crate::runtime::execute::{executed, EffectView};
use crate::runtime::incoming::{entry_handled, session_noted, shows_reboot};
use crate::runtime::laws::{
    answered, found_services_answer_matching_searches, matched_by, renewing_only_queues,
};
use crate::runtime::reading::{
    entry_offers, lemma_noted, lemma_nothing_clustered, lemma_one_entry_read, lemma_one_executed,
    lemma_read, lemma_two_executed, meant_by, message_in, seen_from, session_in,
};
use crate::runtime::sd::{offer_message, offer_names_its_endpoints};
use crate::runtime::sd_client::{
    after_offer, after_stop_offer, announced, offer_actions, stop_offer_actions, to_other_service,
    usable,
};
use crate::runtime::sd_server::find_answered;
use crate::runtime::state::{
    ClientSubscription, DiscoveredService, FindRequest, OfferedService, ServiceKey, StateView,
};
use crate::table::{has_key, lemma_put, lemma_without, lookup, put, without};
use vstd::prelude::*;

verus! {

/// The service that an entry speaks of.
pub open spec fn spoken_of(e: SdEntry) -> ServiceKey {
    ServiceKey {
        service_id: e.service_id,
        instance_id: e.instance_id,
        major_version: e.major_version,
    }
}

/// The time at which a lifetime that starts now has passed; the longest never does.
pub open spec fn lifetime_end(ttl: u32, now: u64) -> u128 {
    if ttl == 0xFF_FFFF {
        u128::MAX
    } else {
        (now + ttl * 1_000_000_000) as u128
    }
}

/// The searches of a host by which a service is meant.
pub open spec fn searches_for(s: StateView, key: ServiceKey) -> Seq<(ServiceKey, FindRequest)> {
    s.find_requests.filter(|f: (ServiceKey, FindRequest)| meant_by(key, f.0))
}

/// Where a service is used, of its endpoints: over the preferred transport, or else over the
/// only one.
pub open spec fn used_at(
    udp: Option<SocketAddr>,
    tcp: Option<SocketAddr>,
    preferred: Transport,
    endpoint: SocketAddr,
    transport: Transport,
) -> bool {
    match transport {
        Transport::Udp => udp == Some(endpoint) && (tcp is None || preferred == Transport::Udp),
        Transport::Tcp => tcp == Some(endpoint) && (udp is None || preferred == Transport::Tcp),
    }
}

proof fn lemma_news_told(
    s: StateView,
    key: ServiceKey,
    availability: ServiceAvailability,
    event: SdEvent,
)
    ensures
        ({
            let actions = seq![
                ActionView::NotifyFound { key, availability },
                ActionView::EmitSdEvent { event },
            ];
            let (t, effects) = crate::runtime::event_loop::carried_out((s, actions));
            let chosen = searches_for(s, key);
            &&& t == s
            &&& effects.len() == chosen.len() + 1
            &&& forall|i: int|
                0 <= i < chosen.len() ==> #[trigger] effects[i] == (EffectView::Deliver {
                    to: chosen[i].1.notify,
                    message: DeliveryView::Availability(availability),
                })
            &&& effects.last() == (EffectView::TellMonitors { monitors: s.sd_monitors, event })
        }),
{
    let a = ActionView::NotifyFound { key, availability };
    let b = ActionView::EmitSdEvent { event };
    lemma_two_executed(s, a, b);
    let finds = s.find_requests;
    found_services_answer_matching_searches(finds, key, availability, finds.len() as int);
    assert(finds.take(finds.len() as int) =~= finds);
    let p = |f: (ServiceKey, FindRequest)| meant_by(key, f.0);
    assert forall|f: (ServiceKey, FindRequest)| #[trigger] p(f) == matched_by(key)(f) by {}
    assert(p =~= matched_by(key));
    let sent = searches_for(s, key).map_values(answered(availability));
    let told = seq![EffectView::TellMonitors { monitors: s.sd_monitors, event }];
    assert(executed(s, a).1 == sent);
    assert(executed(s, b).1 == told);
    let all = sent + told;
    assert(all.last() == told[0]);
    assert forall|i: int| 0 <= i < sent.len() implies #[trigger] all[i] == (EffectView::Deliver {
        to: searches_for(s, key)[i].1.notify,
        message: DeliveryView::Availability(availability),
    }) by {
        assert(all[i] == sent[i]);
    }
}

pub proof fn lemma_offer_taken(s: StateView, m: SdMessageView, from: SocketAddr, now: u64)
    requires
        s.wf(),
        m.entries.len() == 1,
        m.entries[0].entry_type is OfferService,
        m.endpoint_of(m.entries[0], L4Protocol::Udp) is Some || m.endpoint_of(
            m.entries[0],
            L4Protocol::Tcp,
        ) is Some,
    ensures
        ({
            let e = m.entries[0];
            let t = after_offer(s, e, m, from, now);
            let known = DiscoveredService {
                udp_endpoint: seen_from(m.endpoint_of(e, L4Protocol::Udp), from),
                tcp_endpoint: seen_from(m.endpoint_of(e, L4Protocol::Tcp), from),
                sd_endpoint: from,
                minor_version: e.minor_version,
                ttl: e.ttl,
                ttl_expires: lifetime_end(e.ttl, now),
            };
            &&& announced(e, m, from, now) == known
            &&& usable(s, e, m, from, now) matches Some((endpoint, transport)) && used_at(
                known.udp_endpoint,
                known.tcp_endpoint,
                s.config.preferred(),
                endpoint,
                transport,
            )
            &&& t.discovered == put(s.discovered, spoken_of(e), known)
            &&& t == (StateView {
                discovered: t.discovered,
                pending_unicast_sd: t.pending_unicast_sd,
                pending_unicast_sd_deadline: t.pending_unicast_sd_deadline,
                ..s
            })
        }),
{
    let e = m.entries[0];
    let known = announced(e, m, from, now);
    let (_, transport) = usable(s, e, m, from, now)->0;
    let stored = StateView { discovered: put(s.discovered, spoken_of(e), known), ..s };
    renewing_only_queues(stored, spoken_of(e), e.ttl, transport, from, now);
}

/// What is told of a service that was not known.
spec fn news_of(s: StateView, m: SdMessageView, from: SocketAddr, effects: Seq<EffectView>) -> bool {
    let e = m.entries[0];
    let chosen = searches_for(s, spoken_of(e));
    &&& effects.len() == chosen.len() + 1
    &&& exists|endpoint: SocketAddr, transport: Transport|
        {
            &&& #[trigger] used_at(
                seen_from(m.endpoint_of(e, L4Protocol::Udp), from),
                seen_from(m.endpoint_of(e, L4Protocol::Tcp), from),
                s.config.preferred(),
                endpoint,
                transport,
            )
            &&& forall|i: int|
                0 <= i < chosen.len() ==> #[trigger] effects[i] == (EffectView::Deliver {
                    to: chosen[i].1.notify,
                    message: DeliveryView::Availability(
                        ServiceAvailability::Available {
                            endpoint,
                            transport,
                            instance_id: e.instance_id,
                            major_version: e.major_version,
                        },
                    ),
                })
            &&& effects.last() == (EffectView::TellMonitors {
                monitors: s.sd_monitors,
                event: SdEvent::ServiceAvailable {
                    service_id: e.service_id,
                    instance_id: e.instance_id,
                    major_version: e.major_version,
                    minor_version: e.minor_version,
                    endpoint,
                    ttl: e.ttl,
                },
            })
        }
}

proof fn lemma_offer_entry_handled(s: StateView, m: SdMessageView, from: SocketAddr, now: u64)
    requires
        m.entries[0].entry_type is OfferService,
        m.entries[0].ttl > 0,
    ensures
        entry_handled(s, Seq::empty(), m, m.entries[0], from, now) == (
            after_offer(s, m.entries[0], m, from, now),
            offer_actions(s, m.entries[0], m, from, now),
        ),
{
    let actions = offer_actions(s, m.entries[0], m, from, now);
    assert(Seq::<ActionView>::empty() + actions =~= actions);
}

proof fn lemma_offer_handled(s: StateView, m: SdMessageView, from: SocketAddr, now: u64)
    requires
        s.wf(),
        m.entries.len() == 1,
        m.entries[0].entry_type is OfferService,
        m.entries[0].ttl > 0,
        m.endpoint_of(m.entries[0], L4Protocol::Udp) is Some || m.endpoint_of(
            m.entries[0],
            L4Protocol::Tcp,
        ) is Some,
    ensures
        ({
            let (t, acts) = entry_handled(s, Seq::empty(), m, m.entries[0], from, now);
            let (u, effects) = carried_out((t, clustered(acts)));
            &&& t == after_offer(s, m.entries[0], m, from, now)
            &&& u == t
            &&& has_key(s.discovered, spoken_of(m.entries[0])) ==> effects.len() == 0
            &&& !has_key(s.discovered, spoken_of(m.entries[0])) ==> news_of(s, m, from, effects)
        }),
{
    let e = m.entries[0];
    let key = spoken_of(e);
    lemma_offer_entry_handled(s, m, from, now);
    lemma_offer_taken(s, m, from, now);
    let actions = offer_actions(s, e, m, from, now);
    assert(clustered(actions) == actions) by {
        lemma_nothing_clustered(actions);
    }
    let t = after_offer(s, e, m, from, now);
    let (endpoint, transport) = usable(s, e, m, from, now)->0;
    let availability = ServiceAvailability::Available {
        endpoint,
        transport,
        instance_id: e.instance_id,
        major_version: e.major_version,
    };
    let event = SdEvent::ServiceAvailable {
        service_id: e.service_id,
        instance_id: e.instance_id,
        major_version: e.major_version,
        minor_version: e.minor_version,
        endpoint,
        ttl: e.ttl,
    };
    lemma_news_told(t, key, availability, event);
    lemma_one_executed(t, ActionView::EmitSdEvent { event });
    let udp = seen_from(m.endpoint_of(e, L4Protocol::Udp), from);
    let tcp = seen_from(m.endpoint_of(e, L4Protocol::Tcp), from);
    assert(used_at(udp, tcp, s.config.preferred(), endpoint, transport));
    assert(searches_for(t, key) == searches_for(s, key));
}

/// What a host that reads an offer is left with.
pub proof fn lemma_offer_read(
    l: LoopView,
    data: Vec<u8>,
    m: SdMessageView,
    from: SocketAddr,
    now: u64,
    reply: ChannelId,
)
    requires
        l.wf(),
        message_in(data@) == Some(m),
        m.entries.len() == 1,
        m.entries[0].entry_type is OfferService,
        m.entries[0].ttl > 0,
        m.endpoint_of(m.entries[0], L4Protocol::Udp) is Some || m.endpoint_of(
            m.entries[0],
            L4Protocol::Tcp,
        ) is Some,
        !shows_reboot(l.state, from.ip, m.flags, session_in(data@)),
    ensures
        reaction(l, LoopEvent::SdPacket { data, from }, now, reply).0.state == after_offer(
            session_noted(l.state, from.ip, m.flags, session_in(data@)),
            m.entries[0],
            m,
            from,
            now,
        ),
{
    let noted = session_noted(l.state, from.ip, m.flags, session_in(data@));
    lemma_noted(l.state, from.ip, m.flags, session_in(data@));
    lemma_one_entry_read(l, data, m, from, now, reply);
    lemma_offer_handled(noted, m, from, now);
}

/// A host that reads an offer knows the service from then on: under the identifiers of the entry,
/// at the endpoints that the entry names, and until its lifetime has passed. Where the service
/// was not known, every search by which it is meant is answered with an endpoint of the service,
/// and so are the monitors; other services, and what this host offers, stay as they were.
pub proof fn an_offer_is_believed(
    l: LoopView,
    data: Vec<u8>,
    m: SdMessageView,
    from: SocketAddr,
    now: u64,
    reply: ChannelId,
    other: ServiceKey,
)
    requires
        l.wf(),
        message_in(data@) == Some(m),
        m.entries.len() == 1,
        m.entries[0].entry_type is OfferService,
        m.entries[0].ttl > 0,
        m.endpoint_of(m.entries[0], L4Protocol::Udp) is Some || m.endpoint_of(
            m.entries[0],
            L4Protocol::Tcp,
        ) is Some,
        !shows_reboot(l.state, from.ip, m.flags, session_in(data@)),
    ensures
        ({
            let (after, effects) = reaction(l, LoopEvent::SdPacket { data, from }, now, reply);
            let e = m.entries[0];
            let key = spoken_of(e);
            let udp = seen_from(m.endpoint_of(e, L4Protocol::Udp), from);
            let tcp = seen_from(m.endpoint_of(e, L4Protocol::Tcp), from);
            let chosen = searches_for(l.state, key);
            &&& lookup(after.state.discovered, key) == Some(
                DiscoveredService {
                    udp_endpoint: udp,
                    tcp_endpoint: tcp,
                    sd_endpoint: from,
                    minor_version: e.minor_version,
                    ttl: e.ttl,
                    ttl_expires: lifetime_end(e.ttl, now),
                },
            )
            &&& other != key ==> lookup(after.state.discovered, other) == lookup(
                l.state.discovered,
                other,
            )
            &&& after.state == (StateView {
                discovered: after.state.discovered,
                peer_sessions: after.state.peer_sessions,
                pending_unicast_sd: after.state.pending_unicast_sd,
                pending_unicast_sd_deadline: after.state.pending_unicast_sd_deadline,
                ..l.state
            })
            &&& has_key(l.state.discovered, key) ==> effects.len() == 0
            &&& !has_key(l.state.discovered, key) ==> {
                &&& effects.len() == chosen.len() + 1
                &&& exists|endpoint: SocketAddr, transport: Transport|
                    {
                        &&& #[trigger] used_at(
                            udp,
                            tcp,
                            l.state.config.preferred(),
                            endpoint,
                            transport,
                        )
                        &&& forall|i: int|
                            0 <= i < chosen.len() ==> #[trigger] effects[i]
                                == (EffectView::Deliver {
                                to: chosen[i].1.notify,
                                message: DeliveryView::Availability(
                                    ServiceAvailability::Available {
                                        endpoint,
                                        transport,
                                        instance_id: e.instance_id,
                                        major_version: e.major_version,
                                    },
                                ),
                            })
                        &&& effects.last() == (EffectView::TellMonitors {
                            monitors: l.state.sd_monitors,
                            event: SdEvent::ServiceAvailable {
                                service_id: e.service_id,
                                instance_id: e.instance_id,
                                major_version: e.major_version,
                                minor_version: e.minor_version,
                                endpoint,
                                ttl: e.ttl,
                            },
                        })
                    }
            }
        }),
{
    let s = l.state;
    let e = m.entries[0];
    let noted = session_noted(s, from.ip, m.flags, session_in(data@));
    lemma_noted(s, from.ip, m.flags, session_in(data@));
    lemma_one_entry_read(l, data, m, from, now, reply);
    lemma_offer_taken(noted, m, from, now);
    lemma_offer_handled(noted, m, from, now);
    lemma_put(s.discovered, spoken_of(e), announced(e, m, from, now));
    assert(searches_for(noted, spoken_of(e)) == searches_for(s, spoken_of(e)));
}

proof fn lemma_withdrawal_taken(
    s: StateView,
    m: SdMessageView,
    e: SdEntry,
    from: SocketAddr,
    now: u64,
)
    requires
        e.entry_type is OfferService,
        e.ttl == 0,
    ensures
        ({
            let (t, acts) = entry_handled(s, Seq::empty(), m, e, from, now);
            let key = spoken_of(e);
            carried_out((t, clustered(acts))) == (
                if has_key(s.discovered, key) {
                    StateView {
                        discovered: without(s.discovered, key),
                        subscriptions: s.subscriptions.filter(
                            |c: ClientSubscription| c.service != key,
                        ),
                        ..s
                    }
                } else {
                    s
                },
                if has_key(s.discovered, key) {
                    seq![
                        EffectView::TellMonitors {
                            monitors: s.sd_monitors,
                            event: SdEvent::ServiceUnavailable {
                                service_id: e.service_id,
                                instance_id: e.instance_id,
                            },
                        },
                    ]
                } else {
                    Seq::<EffectView>::empty()
                },
            )
        }),
{
    let key = spoken_of(e);
    let p = |c: ClientSubscription| c.service != key;
    assert(p =~= to_other_service(key)) by {
        assert forall|c: ClientSubscription| #[trigger] p(c) == to_other_service(key)(c) by {}
    }
    let t = after_stop_offer(s, e);
    let event = SdEvent::ServiceUnavailable {
        service_id: e.service_id,
        instance_id: e.instance_id,
    };
    let told = ActionView::EmitSdEvent { event };
    lemma_one_executed(t, told);
    let actions = stop_offer_actions(s, e);
    assert(entry_handled(s, Seq::empty(), m, e, from, now).1 =~= actions);
    if has_key(s.discovered, key) {
        assert(actions =~= seq![told]);
    }
    assert(clustered(actions) == actions) by {
        lemma_nothing_clustered(actions);
    }
}

/// A host that reads the withdrawal of an offer no longer knows the service, and has no
/// subscription to it; its monitors hear of it where the service was known. Other services, and
/// the subscriptions to them, stay.
pub proof fn a_withdrawal_is_believed(
    l: LoopView,
    data: Vec<u8>,
    m: SdMessageView,
    from: SocketAddr,
    now: u64,
    reply: ChannelId,
    other: ServiceKey,
)
    requires
        l.wf(),
        message_in(data@) == Some(m),
        m.entries.len() == 1,
        m.entries[0].entry_type is OfferService,
        m.entries[0].ttl == 0,
        !shows_reboot(l.state, from.ip, m.flags, session_in(data@)),
    ensures
        ({
            let (after, effects) = reaction(l, LoopEvent::SdPacket { data, from }, now, reply);
            let e = m.entries[0];
            let key = spoken_of(e);
            &&& !has_key(after.state.discovered, key)
            &&& other != key ==> lookup(after.state.discovered, other) == lookup(
                l.state.discovered,
                other,
            )
            &&& after.state.subscriptions == (if has_key(l.state.discovered, key) {
                l.state.subscriptions.filter(|c: ClientSubscription| c.service != key)
            } else {
                l.state.subscriptions
            })
            &&& after.state == (StateView {
                discovered: after.state.discovered,
                subscriptions: after.state.subscriptions,
                peer_sessions: after.state.peer_sessions,
                ..l.state
            })
            &&& effects == (if has_key(l.state.discovered, key) {
                seq![
                    EffectView::TellMonitors {
                        monitors: l.state.sd_monitors,
                        event: SdEvent::ServiceUnavailable {
                            service_id: e.service_id,
                            instance_id: e.instance_id,
                        },
                    },
                ]
            } else {
                Seq::<EffectView>::empty()
            })
        }),
{
    let e = m.entries[0];
    let noted = session_noted(l.state, from.ip, m.flags, session_in(data@));
    lemma_noted(l.state, from.ip, m.flags, session_in(data@));
    lemma_one_entry_read(l, data, m, from, now, reply);
    lemma_withdrawal_taken(noted, m, e, from, now);
    lemma_without(l.state.discovered, spoken_of(e));
}

/// The services of a host that a search of another host asks for: announced, of the same service,
/// and of the same instance unless any is asked for.
pub open spec fn asked_for(s: StateView, e: SdEntry) -> Seq<(ServiceKey, OfferedService)> {
    s.offered.filter(
        |x: (ServiceKey, OfferedService)|
            x.1.is_announcing && x.0.service_id == e.service_id && (e.instance_id == 0xFFFF
                || x.0.instance_id == e.instance_id),
    )
}

/// A message for one host offers one service, and can be read.
pub open spec fn offers_one(
    a: ActionView,
    to: SocketAddr,
    key: ServiceKey,
    offered: OfferedService,
    ttl: u32,
    advertised_ip: Option<IpAddr>,
) -> bool {
    let m = a->SendSd_message;
    &&& a == (ActionView::SendSd { message: m, target: to })
    &&& m.entries.len() == 1
    &&& entry_offers(m, m.entries[0], key, offered, ttl, advertised_ip)
    &&& ttl <= 0xFF_FFFF ==> forall|session: u16| #[trigger]
        message_in(m.bytes(session)) == Some(m)
}

/// A message that offers a service says so.
pub proof fn lemma_offer_says(
    key: ServiceKey,
    offered: OfferedService,
    flags: u8,
    ttl: u32,
    advertised_ip: Option<IpAddr>,
    to: SocketAddr,
)
    ensures
        offers_one(
            ActionView::SendSd {
                message: offer_message(key, offered, flags, ttl, advertised_ip),
                target: to,
            },
            to,
            key,
            offered,
            ttl,
            advertised_ip,
        ),
        offer_message(key, offered, flags, ttl, advertised_ip).flags == flags,
        offer_message(key, offered, flags, ttl, advertised_ip).options.len() <= 2,
        offer_message(key, offered, flags, ttl, advertised_ip).entries[0].encodable() <==> ttl
            <= 0xFF_FFFF,
{
    let m = offer_message(key, offered, flags, ttl, advertised_ip);
    assert(m.entries.len() == 1);
    offer_names_its_endpoints(key, offered, flags, ttl, advertised_ip);
    crate::discovery::sd_payload_size(m);
    if ttl <= 0xFF_FFFF {
        assert forall|session: u16| #[trigger] message_in(m.bytes(session)) == Some(m) by {
            lemma_read(m, session);
        }
    }
}

pub proof fn lemma_answers(s: StateView, e: SdEntry, from: SocketAddr, now: u64, n: int)
    requires
        0 <= n <= s.offered.len(),
    ensures
        ({
            let t = find_answered(s, e, from, now, n);
            let f = |x: (ServiceKey, OfferedService)|
                ActionView::SendSd {
                    message: offer_message(
                        x.0,
                        x.1,
                        s.flags(true),
                        s.config.offer_ttl,
                        s.config.advertised_ip,
                    ),
                    target: from,
                };
            let p = |x: (ServiceKey, OfferedService)|
                x.1.is_announcing && x.0.service_id == e.service_id && (e.instance_id == 0xFFFF
                    || x.0.instance_id == e.instance_id);
            &&& t.pending_unicast_sd == s.pending_unicast_sd + s.offered.take(n).filter(
                p,
            ).map_values(f)
            &&& t == (StateView {
                pending_unicast_sd: t.pending_unicast_sd,
                pending_unicast_sd_deadline: t.pending_unicast_sd_deadline,
                ..s
            })
        }),
    decreases n,
{
    let f = |x: (ServiceKey, OfferedService)|
        ActionView::SendSd {
            message: offer_message(
                x.0,
                x.1,
                s.flags(true),
                s.config.offer_ttl,
                s.config.advertised_ip,
            ),
            target: from,
        };
    let p = |x: (ServiceKey, OfferedService)|
        x.1.is_announcing && x.0.service_id == e.service_id && (e.instance_id == 0xFFFF
            || x.0.instance_id == e.instance_id);
    let t = find_answered(s, e, from, now, n);
    if n > 0 {
        lemma_answers(s, e, from, now, n - 1);
        crate::rows::lemma_filter_step(s.offered, n - 1, p);
        let before = s.offered.take(n - 1).filter(p);
        if p(s.offered[n - 1]) {
            assert(before.push(s.offered[n - 1]).map_values(f) =~= before.map_values(f).push(
                f(s.offered[n - 1]),
            ));
        }
    } else {
        reveal(Seq::filter);
        assert(s.offered.take(0) =~= Seq::<(ServiceKey, OfferedService)>::empty());
    }
    assert(t.pending_unicast_sd =~= s.pending_unicast_sd + s.offered.take(n).filter(p).map_values(
        f,
    ));
}

/// A search of another host is answered to its sender alone: for each announced service that it
/// asks for, and for no other, one message with one offer of that service, for the configured
/// lifetime and at the service's endpoints. Nothing else changes but what is known of the
/// sender's sessions.
pub proof fn a_search_is_answered(
    l: LoopView,
    data: Vec<u8>,
    m: SdMessageView,
    from: SocketAddr,
    now: u64,
    reply: ChannelId,
)
    requires
        l.wf(),
        message_in(data@) == Some(m),
        m.entries.len() == 1,
        m.entries[0].entry_type is FindService,
        !shows_reboot(l.state, from.ip, m.flags, session_in(data@)),
    ensures
        ({
            let (after, effects) = reaction(l, LoopEvent::SdPacket { data, from }, now, reply);
            let s = l.state;
            let chosen = asked_for(s, m.entries[0]);
            let before = s.pending_unicast_sd;
            let queue = after.state.pending_unicast_sd;
            &&& effects.len() == 0
            &&& queue.len() == before.len() + chosen.len()
            &&& queue.take(before.len() as int) == before
            &&& forall|i: int|
                0 <= i < chosen.len() ==> {
                    let a = #[trigger] queue[before.len() + i];
                    &&& offers_one(
                        a,
                        from,
                        chosen[i].0,
                        chosen[i].1,
                        s.config.offer_ttl,
                        s.config.advertised_ip,
                    )
                    &&& a->SendSd_message.flags & 0x40 != 0
                }
            &&& after.state == (StateView {
                peer_sessions: after.state.peer_sessions,
                pending_unicast_sd: queue,
                pending_unicast_sd_deadline: after.state.pending_unicast_sd_deadline,
                ..s
            })
        }),
{
    let s = l.state;
    let e = m.entries[0];
    let noted = session_noted(s, from.ip, m.flags, session_in(data@));
    lemma_noted(s, from.ip, m.flags, session_in(data@));
    lemma_one_entry_read(l, data, m, from, now, reply);
    let n = s.offered.len() as int;
    lemma_answers(noted, e, from, now, n);
    assert(s.offered.take(n) =~= s.offered);
    lemma_nothing_clustered(Seq::empty());
    let t = find_answered(noted, e, from, now, n);
    lemma_one_executed(t, ActionView::Deliver { to: 0, message: DeliveryView::HasSubscribers(true) });
    let queue = t.pending_unicast_sd;
    let before = s.pending_unicast_sd;
    let chosen = asked_for(s, e);
    assert(queue.take(before.len() as int) =~= before);
    assert forall|i: int| 0 <= i < chosen.len() implies {
        let a = #[trigger] queue[before.len() + i];
        &&& offers_one(
            a,
            from,
            chosen[i].0,
            chosen[i].1,
            s.config.offer_ttl,
            s.config.advertised_ip,
        )
        &&& a->SendSd_message.flags & 0x40 != 0
    } by {
        lemma_offer_says(
            chosen[i].0,
            chosen[i].1,
            s.flags(true),
            s.config.offer_ttl,
            s.config.advertised_ip,
            from,
        );
        crate::runtime::state::flag_laws(s, true);
    }
}

} // verus!
