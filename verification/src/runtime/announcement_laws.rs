//! What holds of announcements with several entries: of the first offers that are sent together,
//! of what is repeated in every cycle, and of the hosts that read either.

use crate::discovery::{L4Protocol, SdEntry, SdMessageView};
use crate::message::ChannelId;
use crate::net::{IpAddr, SocketAddr};
use crate::runtime::action::ActionView;
use crate::runtime::cluster::{by_target, clustered, not_sd, refers_within, sends};
use crate::runtime::event_loop::{reaction, LoopEvent, LoopView};
use crate::runtime::execute::{executed_all, EffectView};
use crate::runtime::incoming::{entries_handled, entry_handled, session_noted, shows_reboot};
use crate::runtime::periodic::{after_initial_offers, initial_offers};
use crate::runtime::reader_laws::{lemma_answers, lifetime_end, spoken_of};
use crate::runtime::reading::{
    discovery_group, entry_offers, lemma_noted, lemma_one_executed, lemma_packet, lemma_read,
    message_in, named_at, seen_from, session_in,
};
use crate::runtime::sd::{offer_message, offer_names_its_endpoints, offer_options, with_offer};
use crate::runtime::sd_client::{
    acked_many, after_offer, awaiting, awaiting_other, nacked_many, pending_key, usable, PendingRow,
};
use crate::runtime::state::{DiscoveredService, OfferedService, ServiceKey, StateView};
use crate::table::{distinct, has_key, lemma_put, lemma_without, lookup, put};
use vstd::prelude::*;

verus! {

/// No action forgets a host.
spec fn calm(acts: Seq<ActionView>) -> bool {
    forall|i: int| 0 <= i < acts.len() ==> !((#[trigger] acts[i]) is ExpirePeerSubscriptions)
}

proof fn lemma_calm_executed(s: StateView, acts: Seq<ActionView>, n: int)
    requires
        calm(acts),
        0 <= n <= acts.len(),
    ensures
        executed_all(s, acts, n).0.discovered == s.discovered,
    decreases n,
{
    if n > 0 {
        lemma_calm_executed(s, acts, n - 1);
        assert(!(acts[n - 1] is ExpirePeerSubscriptions));
    }
}

proof fn lemma_calm_clustered(acts: Seq<ActionView>)
    requires
        calm(acts),
    ensures
        calm(clustered(acts)),
{
    let others = acts.filter(not_sd());
    let sent = sends(by_target(acts));
    let all = clustered(acts);
    assert forall|i: int| 0 <= i < all.len() implies !((
    #[trigger] all[i]) is ExpirePeerSubscriptions) by {
        if i < others.len() {
            assert(others.contains(others[i]));
            crate::rows::lemma_filter_contains(acts, not_sd(), others[i]);
            let j = choose|j: int| 0 <= j < acts.len() && acts[j] == others[i];
            assert(!(acts[j] is ExpirePeerSubscriptions));
        } else {
            assert(all[i] == sent[i - others.len()]);
        }
    }
}

proof fn lemma_acked(
    s: StateView,
    acts: Seq<ActionView>,
    e: SdEntry,
    waiting: Seq<PendingRow>,
    n: int,
)
    requires
        calm(acts),
        0 <= n <= waiting.len(),
    ensures
        acked_many(s, acts, e, waiting, n).0.discovered == s.discovered,
        calm(acked_many(s, acts, e, waiting, n).1),
        nacked_many(s, acts, e, waiting, n).0.discovered == s.discovered,
        calm(nacked_many(s, acts, e, waiting, n).1),
    decreases n,
{
    if n > 0 {
        lemma_acked(s, acts, e, waiting, n - 1);
    }
}

/// The entry offers or withdraws the service.
pub open spec fn is_about(e: SdEntry, key: ServiceKey) -> bool {
    e.entry_type is OfferService && spoken_of(e) == key
}

proof fn lemma_entry_elsewhere(
    s: StateView,
    acts: Seq<ActionView>,
    m: SdMessageView,
    e: SdEntry,
    from: SocketAddr,
    now: u64,
    key: ServiceKey,
)
    requires
        distinct(s.discovered),
        calm(acts),
    ensures
        ({
            let (t, a) = entry_handled(s, acts, m, e, from, now);
            &&& distinct(t.discovered)
            &&& !is_about(e, key) ==> lookup(t.discovered, key) == lookup(s.discovered, key)
            &&& calm(a)
        }),
{
    let (t, a) = entry_handled(s, acts, m, e, from, now);
    if e.entry_type is OfferService {
        if e.stops() {
            lemma_without(s.discovered, spoken_of(e));
        } else if usable(s, e, m, from, now) is Some {
            lemma_offer_stored(s, m, e, from, now);
            lemma_put(
                s.discovered,
                spoken_of(e),
                crate::runtime::sd_client::announced(e, m, from, now),
            );
        }
    } else if e.entry_type is FindService {
        lemma_answers(s, e, from, now, s.offered.len() as int);
    } else if e.entry_type is SubscribeEventgroupAck {
        let rows = s.pending_subscriptions;
        let waiting = rows.filter(awaiting(pending_key(e)));
        let left = StateView {
            pending_subscriptions: rows.filter(awaiting_other(pending_key(e))),
            ..s
        };
        lemma_acked(left, acts, e, waiting, waiting.len() as int);
    }
}

proof fn lemma_offer_stored(
    s: StateView,
    m: SdMessageView,
    e: SdEntry,
    from: SocketAddr,
    now: u64,
)
    requires
        usable(s, e, m, from, now) is Some,
    ensures
        after_offer(s, e, m, from, now).discovered == put(
            s.discovered,
            spoken_of(e),
            crate::runtime::sd_client::announced(e, m, from, now),
        ),
{
    let known = crate::runtime::sd_client::announced(e, m, from, now);
    let (_, transport) = usable(s, e, m, from, now)->0;
    let stored = StateView { discovered: put(s.discovered, spoken_of(e), known), ..s };
    crate::runtime::laws::renewing_only_queues(stored, spoken_of(e), e.ttl, transport, from, now);
}

/// What a host knows of a service from an entry that offers it.
pub open spec fn known_from(
    m: SdMessageView,
    e: SdEntry,
    from: SocketAddr,
    now: u64,
) -> DiscoveredService {
    DiscoveredService {
        udp_endpoint: seen_from(m.endpoint_of(e, L4Protocol::Udp), from),
        tcp_endpoint: seen_from(m.endpoint_of(e, L4Protocol::Tcp), from),
        sd_endpoint: from,
        minor_version: e.minor_version,
        ttl: e.ttl,
        ttl_expires: lifetime_end(e.ttl, now),
    }
}

proof fn lemma_offer_among(
    s: StateView,
    acts: Seq<ActionView>,
    m: SdMessageView,
    from: SocketAddr,
    now: u64,
    n: int,
    i: int,
)
    requires
        distinct(s.discovered),
        calm(acts),
        0 <= i < m.entries.len(),
        0 <= n <= m.entries.len(),
        m.entries[i].entry_type is OfferService,
        m.entries[i].ttl > 0,
        m.endpoint_of(m.entries[i], L4Protocol::Udp) is Some || m.endpoint_of(
            m.entries[i],
            L4Protocol::Tcp,
        ) is Some,
        forall|j: int|
            i < j < m.entries.len() ==> !is_about(
                #[trigger] m.entries[j],
                spoken_of(m.entries[i]),
            ),
    ensures
        ({
            let (t, a) = entries_handled(s, acts, m, from, now, n);
            &&& distinct(t.discovered)
            &&& calm(a)
            &&& i < n ==> lookup(t.discovered, spoken_of(m.entries[i])) == Some(
                known_from(m, m.entries[i], from, now),
            )
        }),
    decreases n,
{
    if n > 0 {
        lemma_offer_among(s, acts, m, from, now, n - 1, i);
        let (t, a) = entries_handled(s, acts, m, from, now, n - 1);
        let e = m.entries[n - 1];
        let key = spoken_of(m.entries[i]);
        lemma_entry_elsewhere(t, a, m, e, from, now, key);
        if n - 1 == i {
            lemma_offer_stored(t, m, e, from, now);
            lemma_put(t.discovered, key, crate::runtime::sd_client::announced(e, m, from, now));
        } else if i < n - 1 {
            assert(!is_about(m.entries[n - 1], key));
        }
    }
}

/// Of a message with many entries every offer is believed: a host that reads it knows each
/// service that an entry offers, at the endpoints that the entry names and until its lifetime
/// has passed, unless a later entry of the message speaks of the same service.
pub proof fn every_offer_of_a_message_is_believed(
    l: LoopView,
    data: Vec<u8>,
    m: SdMessageView,
    from: SocketAddr,
    now: u64,
    reply: ChannelId,
    i: int,
)
    requires
        l.wf(),
        message_in(data@) == Some(m),
        !shows_reboot(l.state, from.ip, m.flags, session_in(data@)),
        0 <= i < m.entries.len(),
        m.entries[i].entry_type is OfferService,
        m.entries[i].ttl > 0,
        m.endpoint_of(m.entries[i], L4Protocol::Udp) is Some || m.endpoint_of(
            m.entries[i],
            L4Protocol::Tcp,
        ) is Some,
        forall|j: int|
            i < j < m.entries.len() ==> !is_about(
                #[trigger] m.entries[j],
                spoken_of(m.entries[i]),
            ),
    ensures
        lookup(
            reaction(l, LoopEvent::SdPacket { data, from }, now, reply).0.state.discovered,
            spoken_of(m.entries[i]),
        ) == Some(known_from(m, m.entries[i], from, now)),
{
    let noted = session_noted(l.state, from.ip, m.flags, session_in(data@));
    lemma_noted(l.state, from.ip, m.flags, session_in(data@));
    let n = m.entries.len() as int;
    lemma_offer_among(noted, Seq::empty(), m, from, now, n, i);
    let (t, a) = entries_handled(noted, Seq::empty(), m, from, now, n);
    lemma_calm_clustered(a);
    lemma_calm_executed(t, clustered(a), clustered(a).len() as int);
    lemma_packet(l, data, from, now, reply);
}

/// Options that are appended do not change those that an entry refers to.
pub proof fn lemma_appended(m: SdMessageView, r: SdMessageView, e: SdEntry)
    requires
        m.options.len() <= r.options.len(),
        r.options.take(m.options.len() as int) == m.options,
        refers_within(e, m.options.len() as int),
    ensures
        r.options_of(e) == m.options_of(e),
        refers_within(e, r.options.len() as int),
{
    let n = m.options.len() as int;
    assert forall|k: int| 0 <= k < n implies m.options[k] == r.options[k] by {
        assert(r.options.take(n)[k] == r.options[k]);
    }
    assert(r.options_of(e) =~= m.options_of(e));
}

/// The number of endpoints of a service.
pub open spec fn endpoints_of(o: OfferedService) -> nat {
    (if o.udp_endpoint is Some {
        1nat
    } else {
        0
    }) + (if o.tcp_endpoint is Some {
        1nat
    } else {
        0
    })
}

/// The number of endpoints of the first `n` services whose first offer is held back.
pub open spec fn endpoints_held_back(s: StateView, n: int) -> nat
    decreases n,
{
    if n <= 0 {
        0
    } else {
        endpoints_held_back(s, n - 1) + match lookup(
            s.offered,
            s.pending_initial_offers[n - 1],
        ) {
            Some(o) => endpoints_of(o),
            None => 0,
        }
    }
}

proof fn lemma_offer_appended(
    m: SdMessageView,
    key: ServiceKey,
    offered: OfferedService,
    ttl: u32,
    advertised_ip: Option<IpAddr>,
)
    requires
        m.options.len() + endpoints_of(offered) <= 256,
    ensures
        ({
            let r = with_offer(m, key, offered, ttl, advertised_ip);
            let e = r.entries.last();
            &&& entry_offers(r, e, key, offered, ttl, advertised_ip)
            &&& refers_within(e, r.options.len() as int)
            &&& r.options.len() == m.options.len() + endpoints_of(offered)
            &&& ttl <= 0xFF_FFFF ==> e.encodable()
        }),
{
    let r = with_offer(m, key, offered, ttl, advertised_ip);
    let e = r.entries.last();
    let alone = offer_message(key, offered, m.flags, ttl, advertised_ip);
    offer_names_its_endpoints(key, offered, m.flags, ttl, advertised_ip);
    let options = offer_options(offered, advertised_ip);
    assert(alone.options_of(alone.entries[0]) =~= options);
    assert(r.options_of(e) =~= options);
}

/// The services whose first offer is held back and which are still offered, in order.
pub open spec fn held_back(s: StateView) -> Seq<ServiceKey> {
    s.pending_initial_offers.filter(|k: ServiceKey| has_key(s.offered, k))
}

proof fn lemma_initial_offers(s: StateView, now: u64, n: int)
    requires
        s.wf(),
        0 <= n <= s.pending_initial_offers.len(),
        endpoints_held_back(s, n) <= 256,
    ensures
        ({
            let (offered, m) = initial_offers(s, now, n);
            let p = |k: ServiceKey| has_key(s.offered, k);
            let keys = s.pending_initial_offers.take(n).filter(p);
            &&& m.flags == s.flags(false)
            &&& m.entries.len() == keys.len()
            &&& m.entries.len() <= n
            &&& m.options.len() == endpoints_held_back(s, n)
            &&& distinct(offered)
            &&& forall|k: ServiceKey| #[trigger]
                lookup(offered, k) == (match lookup(s.offered, k) {
                    Some(o) => if s.pending_initial_offers.take(n).contains(k) {
                        Some(OfferedService { last_offer: now, ..o })
                    } else {
                        Some(o)
                    },
                    None => None,
                })
            &&& forall|i: int|
                0 <= i < keys.len() ==> {
                    let e = #[trigger] m.entries[i];
                    &&& lookup(s.offered, keys[i]) is Some
                    &&& entry_offers(
                        m,
                        e,
                        keys[i],
                        lookup(s.offered, keys[i])->0,
                        s.config.offer_ttl,
                        s.config.advertised_ip,
                    )
                    &&& refers_within(e, m.options.len() as int)
                    &&& s.config.offer_ttl <= 0xFF_FFFF ==> e.encodable()
                }
        }),
    decreases n,
{
    let p = |k: ServiceKey| has_key(s.offered, k);
    let all = s.pending_initial_offers;
    reveal(Seq::filter);
    if n > 0 {
        lemma_initial_offers(s, now, n - 1);
        let (offered, m) = initial_offers(s, now, n - 1);
        let key = all[n - 1];
        crate::rows::lemma_filter_step(all, n - 1, p);
        crate::rows::lemma_take_step(all, n - 1);
        assert forall|k: ServiceKey| #[trigger] all.take(n).contains(k) <==> all.take(
            n - 1,
        ).contains(k) || k == key by {
            let (more, fewer) = (all.take(n), all.take(n - 1));
            if fewer.contains(k) {
                let j = choose|j: int| 0 <= j < fewer.len() && fewer[j] == k;
                assert(more[j] == k);
            }
            if more.contains(k) {
                let j = choose|j: int| 0 <= j < more.len() && more[j] == k;
                if j < n - 1 {
                    assert(fewer[j] == k);
                }
            }
            assert(more[n - 1] == key);
        }
        assert(lookup(offered, key) is Some <==> lookup(s.offered, key) is Some);
        if let Some(o) = lookup(offered, key) {
            lemma_put(offered, key, OfferedService { last_offer: now, ..o });
            let (ttl, ip) = (s.config.offer_ttl, s.config.advertised_ip);
            lemma_offer_appended(m, key, o, ttl, ip);
            let r = with_offer(m, key, o, ttl, ip);
            let before = all.take(n - 1).filter(p);
            let keys = before.push(key);
            assert(r.options.take(m.options.len() as int) =~= m.options);
            assert forall|i: int| 0 <= i < keys.len() implies {
                let e = #[trigger] r.entries[i];
                &&& lookup(s.offered, keys[i]) is Some
                &&& entry_offers(r, e, keys[i], lookup(s.offered, keys[i])->0, ttl, ip)
                &&& refers_within(e, r.options.len() as int)
                &&& ttl <= 0xFF_FFFF ==> e.encodable()
            } by {
                if i < before.len() {
                    assert(r.entries[i] == m.entries[i]);
                    assert(keys[i] == before[i]);
                    lemma_appended(m, r, m.entries[i]);
                } else {
                    assert(r.entries[i] == r.entries.last());
                    assert(keys[i] == key);
                }
            }
        } else {
            assert(lookup(s.offered, key) is None);
        }
    } else {
        assert(all.take(0) =~= Seq::<ServiceKey>::empty());
        assert(all.take(0).filter(p) =~= Seq::<ServiceKey>::empty());
    }
}

/// When the first offers are due, they go to the group in one message: it offers each service
/// that was held back and is still offered, for the configured lifetime and at the service's
/// endpoints, and nothing else. They are then no longer held back, and count as offered now. One message has
/// room for 256 endpoints.
pub proof fn first_offers_go_to_the_group(
    l: LoopView,
    now: u64,
    reply: ChannelId,
    other: ServiceKey,
)
    requires
        l.wf(),
        0 < l.state.pending_initial_offers.len() <= 0x100_0000,
        endpoints_held_back(l.state, l.state.pending_initial_offers.len() as int) <= 256,
        l.state.config.offer_ttl <= 0xFF_FFFF,
    ensures
        ({
            let (after, effects) = reaction(l, LoopEvent::OffersDue, now, reply);
            let s = l.state;
            let t = after.state;
            let data = effects[0]->SendSd_data;
            let m = message_in(data)->0;
            let keys = held_back(s);
            &&& effects.len() == 1
            &&& effects[0] == (EffectView::SendSd { data, target: discovery_group(s) })
            &&& message_in(data) is Some
            &&& m.flags & 0x40 == 0
            &&& m.entries.len() == keys.len()
            &&& forall|i: int|
                0 <= i < keys.len() ==> {
                    &&& lookup(s.offered, keys[i]) is Some
                    &&& entry_offers(
                        m,
                        #[trigger] m.entries[i],
                        keys[i],
                        lookup(s.offered, keys[i])->0,
                        s.config.offer_ttl,
                        s.config.advertised_ip,
                    )
                }
            &&& lookup(t.offered, other) == (match lookup(s.offered, other) {
                Some(o) => if s.pending_initial_offers.contains(other) {
                    Some(OfferedService { last_offer: now, ..o })
                } else {
                    Some(o)
                },
                None => None,
            })
            &&& t.pending_initial_offers.len() == 0
            &&& t.pending_offers_deadline is None
            &&& t == (StateView {
                offered: t.offered,
                pending_initial_offers: t.pending_initial_offers,
                pending_offers_deadline: t.pending_offers_deadline,
                multicast_session_id: t.multicast_session_id,
                multicast_has_wrapped_once: t.multicast_has_wrapped_once,
                ..s
            })
        }),
{
    let s = l.state;
    let n = s.pending_initial_offers.len() as int;
    lemma_initial_offers(s, now, n);
    assert(s.pending_initial_offers.take(n) =~= s.pending_initial_offers);
    let m = initial_offers(s, now, n).1;
    crate::discovery::sd_payload_size(m);
    lemma_read(m, s.multicast_session_id);
    lemma_flush_reaction(l, now, reply);
    crate::runtime::state::flag_laws(s, false);
}

proof fn lemma_flush_reaction(l: LoopView, now: u64, reply: ChannelId)
    requires
        l.wf(),
        0 < l.state.pending_initial_offers.len() <= 0x100_0000,
        endpoints_held_back(l.state, l.state.pending_initial_offers.len() as int) <= 256,
    ensures
        ({
            let s = l.state;
            let m = initial_offers(s, now, s.pending_initial_offers.len() as int).1;
            reaction(l, LoopEvent::OffersDue, now, reply) == (
                LoopView { state: after_initial_offers(s, now).multicast_session_used(), ..l },
                seq![
                    EffectView::SendSd {
                        data: m.bytes(s.multicast_session_id),
                        target: discovery_group(s),
                    },
                ],
            )
        }),
{
    let s = l.state;
    let n = s.pending_initial_offers.len() as int;
    lemma_initial_offers(s, now, n);
    let m = initial_offers(s, now, n).1;
    crate::runtime::state::flag_laws(s, false);
    let t = after_initial_offers(s, now);
    lemma_one_executed(t, ActionView::SendSd { message: m, target: discovery_group(s) });
}

/// First offers make services known: a host that reads what is sent when they are due knows every
/// service that was held back, at the endpoints at which it is offered and for the configured
/// lifetime.
pub proof fn first_offers_make_services_known(
    server: LoopView,
    now: u64,
    reply: ChannelId,
    data: Vec<u8>,
    client: LoopView,
    from: SocketAddr,
    later: u64,
    i: int,
)
    requires
        server.wf(),
        client.wf(),
        0 < server.state.pending_initial_offers.len() <= 0x100_0000,
        endpoints_held_back(
            server.state,
            server.state.pending_initial_offers.len() as int,
        ) <= 256,
        0 < server.state.config.offer_ttl <= 0xFF_FFFF,
        forall|k: ServiceKey| #[trigger]
            lookup(server.state.offered, k) is Some ==> lookup(
                server.state.offered,
                k,
            )->0.major_version == k.major_version,
        0 <= i < held_back(server.state).len(),
        forall|j: int|
            i < j < held_back(server.state).len() ==> held_back(server.state)[i] != (
            #[trigger] held_back(server.state)[j]),
        lookup(server.state.offered, held_back(server.state)[i])->0.udp_endpoint is Some || lookup(
            server.state.offered,
            held_back(server.state)[i],
        )->0.tcp_endpoint is Some,
        data@ == reaction(server, LoopEvent::OffersDue, now, reply).1[0]->SendSd_data,
        !shows_reboot(client.state, from.ip, message_in(data@)->0.flags, session_in(data@)),
    ensures
        ({
            let key = held_back(server.state)[i];
            let offered = lookup(server.state.offered, key)->0;
            let config = server.state.config;
            lookup(
                reaction(client, LoopEvent::SdPacket { data, from }, later, reply).0.state.discovered,
                key,
            ) == Some(
                DiscoveredService {
                    udp_endpoint: seen_from(
                        named_at(offered.udp_endpoint, config.advertised_ip),
                        from,
                    ),
                    tcp_endpoint: seen_from(
                        named_at(offered.tcp_endpoint, config.advertised_ip),
                        from,
                    ),
                    sd_endpoint: from,
                    minor_version: offered.minor_version,
                    ttl: config.offer_ttl,
                    ttl_expires: lifetime_end(config.offer_ttl, later),
                },
            )
        }),
{
    let s = server.state;
    let keys = held_back(s);
    first_offers_go_to_the_group(server, now, reply, keys[i]);
    let m = message_in(data@)->0;
    let e = m.entries[i];
    assert(lookup(s.offered, keys[i]) is Some);
    assert(spoken_of(e) == keys[i]);
    assert forall|j: int| i < j < m.entries.len() implies !is_about(
        #[trigger] m.entries[j],
        spoken_of(e),
    ) by {
        assert(lookup(s.offered, keys[j]) is Some);
        assert(keys[i] != keys[j]);
    }
    every_offer_of_a_message_is_believed(client, data, m, from, later, reply, i);
}

} // verus!
