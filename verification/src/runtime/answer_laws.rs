//! What holds of a subscription once it was asked for: it succeeds when its server acknowledges
//! it, is renewed with every offer, and ends at the server when it ends here.

use crate::config::Transport;
use crate::discovery::{L4Protocol, SdEntry, SdMessageView};
use crate::error::ErrorView;
use crate::ids::{InstanceId, ServiceId};
use crate::message::{ChannelId, DeliveryView};
use crate::net::{IpAddr, SocketAddr};
use crate::runtime::action::ActionView;
use crate::runtime::asking_laws::{answer_awaited, asks_for_rest, begun, reached_at};
use crate::runtime::client::{after_unsubscribe, not_subscription, subscription_meant};
use crate::runtime::cluster::clustered;
use crate::runtime::command::Command;
use crate::runtime::event_loop::{carried_out, reaction, LoopEvent, LoopView};
use crate::runtime::execute::{executed_all, EffectView};
use crate::runtime::incoming::{entry_handled, session_noted, shows_reboot};
use crate::runtime::laws::{an_offer_renews_every_subscription, renewal};
use crate::runtime::offer_laws::instance_key;
use crate::runtime::reader_laws::{lemma_offer_read, spoken_of, used_at};
use crate::runtime::reading::{
    lemma_noted, lemma_nothing_clustered, lemma_one_entry_read, lemma_one_executed,
    lemma_plain_command, message_in, seen_from, session_in,
};
use crate::runtime::sd_client::{
    acked_many, after_ack, after_nack, awaiting, awaiting_other, multi_key, nacked_many,
    pending_key, reachable_ip, to_service, PendingRow,
};
use crate::runtime::state::{
    ClientSubscription, EndpointUse, PendingSubscriptionKey, ServiceKey, StateView, SubscriberKey,
    SubscriberSlot,
};
use crate::runtime::subscribe::RequestView;
use crate::runtime::subscribing_laws::{
    a_subscription_is_taken, an_unsubscription_is_taken, can_serve, entry_asks,
    lemma_subscribe_says, names_host, slot_at,
};
use crate::table::{distinct, has_key, lemma_put, lemma_without, lookup, without};
use vstd::prelude::*;

verus! {

/// A message asks a server for one eventgroup, and can be read.
pub open spec fn asks_one(
    a: ActionView,
    to: SocketAddr,
    key: ServiceKey,
    eventgroup_id: u16,
    ttl: u32,
    at: SocketAddr,
    transport: Transport,
) -> bool {
    let m = a->SendSd_message;
    &&& a == (ActionView::SendSd { message: m, target: to })
    &&& m.flags & 0x40 != 0
    &&& m.entries.len() == 1
    &&& entry_asks(m, m.entries[0], key, eventgroup_id, ttl, at, transport)
    &&& ttl <= 0xFF_FFFF ==> forall|session: u16| #[trigger]
        message_in(m.bytes(session)) == Some(m)
}

/// The subscriptions of a host to a service.
pub open spec fn subscriptions_to(s: StateView, key: ServiceKey) -> Seq<ClientSubscription> {
    s.subscriptions.filter(|c: ClientSubscription| c.service == key)
}

/// An offer renews every subscription to its service: for each, and for nothing else, one message
/// to the offering host asks for its eventgroup at its own port, over the transport that was chosen
/// for it or else that with which the service is used, and for the longer of the configured
/// lifetime and the offer's. Where subscriptions never end, none is renewed.
pub proof fn an_offer_is_answered_with_renewals(
    l: LoopView,
    data: Vec<u8>,
    m: SdMessageView,
    from: SocketAddr,
    now: u64,
    reply: ChannelId,
    ip: IpAddr,
)
    requires
        l.wf(),
        message_in(data@) == Some(m),
        m.entries.len() == 1,
        m.entries[0].entry_type is OfferService,
        m.entries[0].ttl > 0,
        m.endpoint_of(m.entries[0], L4Protocol::Udp) is Some || m.endpoint_of(
            m.entries[0],
            L4Protocol::Tcp,
        ) is Some,
        !shows_reboot(l.state, from.ip, m.flags, session_in(data@)),
        reached_at(l.state, ip),
    ensures
        ({
            let s = l.state;
            let e = m.entries[0];
            let queue = reaction(
                l,
                LoopEvent::SdPacket { data, from },
                now,
                reply,
            ).0.state.pending_unicast_sd;
            let before = s.pending_unicast_sd;
            let subs = subscriptions_to(s, spoken_of(e));
            let configured = s.config.subscribe_ttl;
            if configured == 0xFF_FFFF {
                queue == before
            } else {
                &&& queue.len() == before.len() + subs.len()
                &&& queue.take(before.len() as int) == before
                &&& forall|i: int|
                    0 <= i < subs.len() ==> exists|endpoint: SocketAddr, used: Transport|
                        {
                            &&& #[trigger] used_at(
                                seen_from(m.endpoint_of(e, L4Protocol::Udp), from),
                                seen_from(m.endpoint_of(e, L4Protocol::Tcp), from),
                                s.config.preferred(),
                                endpoint,
                                used,
                            )
                            &&& asks_one(
                                #[trigger] queue[before.len() + i],
                                from,
                                spoken_of(e),
                                subs[i].eventgroup_id,
                                if configured >= e.ttl {
                                    configured
                                } else {
                                    e.ttl
                                },
                                SocketAddr { ip, port: subs[i].local_endpoint.port },
                                match subs[i].chosen {
                                    Some(transport) => transport,
                                    None => used,
                                },
                            )
                        }
            }
        }),
{
    let s = l.state;
    let e = m.entries[0];
    let key = spoken_of(e);
    let noted = session_noted(s, from.ip, m.flags, session_in(data@));
    lemma_noted(s, from.ip, m.flags, session_in(data@));
    lemma_offer_read(l, data, m, from, now, reply);
    crate::runtime::reader_laws::lemma_offer_taken(noted, m, from, now);
    assert(reachable_ip(noted) == Some(ip));
    an_offer_renews_every_subscription(noted, e, m, from, now);
    let p = |c: ClientSubscription| c.service == key;
    assert(p =~= to_service(key)) by {
        assert forall|c: ClientSubscription| #[trigger] p(c) == to_service(key)(c) by {}
    }
    let subs = subscriptions_to(s, key);
    let (endpoint, used) = crate::runtime::sd_client::usable(noted, e, m, from, now)->0;
    let configured = s.config.subscribe_ttl;
    let ttl = if configured < e.ttl {
        e.ttl
    } else {
        configured
    };
    if configured != 0xFF_FFFF {
        let sent = subs.map_values(
            |c: ClientSubscription| renewal(noted, key, c, ip, ttl, used, from),
        );
        let queue = s.pending_unicast_sd + sent;
        let before = s.pending_unicast_sd;
        assert(queue.take(before.len() as int) =~= before);
        assert forall|i: int| 0 <= i < subs.len() implies asks_one(
            #[trigger] queue[before.len() + i],
            from,
            key,
            subs[i].eventgroup_id,
            ttl,
            SocketAddr { ip, port: subs[i].local_endpoint.port },
            match subs[i].chosen {
                Some(transport) => transport,
                None => used,
            },
        ) by {
            lemma_one_asked(
                noted,
                key,
                subs[i].eventgroup_id,
                ttl,
                SocketAddr { ip, port: subs[i].local_endpoint.port },
                match subs[i].chosen {
                    Some(transport) => transport,
                    None => used,
                },
                from,
            );
        }
    }
}

proof fn lemma_one_asked(
    s: StateView,
    key: ServiceKey,
    eventgroup_id: u16,
    ttl: u32,
    at: SocketAddr,
    transport: Transport,
    to: SocketAddr,
)
    ensures
        asks_one(
            ActionView::SendSd {
                message: crate::runtime::sd::subscribe_message(
                    key,
                    seq![eventgroup_id],
                    at.ip,
                    at.port,
                    s.flags(true),
                    ttl,
                    transport,
                ),
                target: to,
            },
            to,
            key,
            eventgroup_id,
            ttl,
            at,
            transport,
        ),
{
    lemma_subscribe_says(key, seq![eventgroup_id], at, s.flags(true), ttl, transport);
    crate::runtime::state::flag_laws(s, true);
}

/// A handle's subscription to an eventgroup of a service.
pub open spec fn is_part(
    c: ClientSubscription,
    key: ServiceKey,
    eventgroup_id: u16,
    subscription_id: u64,
) -> bool {
    c.service == key && c.eventgroup_id == eventgroup_id && c.subscription_id == subscription_id
}

proof fn lemma_meant(
    subs: Seq<ClientSubscription>,
    key: ServiceKey,
    eventgroup_id: u16,
    subscription_id: u64,
    i: int,
    k: int,
)
    requires
        0 <= i <= k < subs.len(),
        is_part(subs[k], key, eventgroup_id, subscription_id),
        forall|j: int|
            0 <= j < k ==> !is_part(#[trigger] subs[j], key, eventgroup_id, subscription_id),
    ensures
        subscription_meant(subs, key, eventgroup_id, subscription_id, i) == Some(subs[k]),
    decreases k - i,
{
    if i < k {
        assert(!is_part(subs[i], key, eventgroup_id, subscription_id));
        lemma_meant(subs, key, eventgroup_id, subscription_id, i + 1, k);
    }
}

/// A handle that ends its subscription to an eventgroup has none to it afterwards, while all other
/// subscriptions stay. Where no other handle is subscribed to the eventgroup, the server, if it
/// is known, is told, by one message that withdraws exactly this eventgroup at the endpoint at
/// which its events were asked for; otherwise nothing is sent. The port is given up where no other
/// subscription to the service uses it.
pub proof fn a_subscription_is_ended(
    l: LoopView,
    service_id: ServiceId,
    instance_id: InstanceId,
    major_version: u8,
    eventgroup_id: u16,
    subscription_id: u64,
    now: u64,
    reply: ChannelId,
    k: int,
    ip: IpAddr,
)
    requires
        l.wf(),
        0 <= k < l.state.subscriptions.len(),
        is_part(
            l.state.subscriptions[k],
            instance_key(service_id, instance_id, major_version),
            eventgroup_id,
            subscription_id,
        ),
        forall|j: int|
            0 <= j < k ==> !is_part(
                #[trigger] l.state.subscriptions[j],
                instance_key(service_id, instance_id, major_version),
                eventgroup_id,
                subscription_id,
            ),
        reached_at(l.state, ip),
    ensures
        ({
            let command = Command::Unsubscribe {
                service_id,
                instance_id,
                major_version,
                eventgroup_id,
                subscription_id,
            };
            let (after, effects) = reaction(l, LoopEvent::Command { command }, now, reply);
            let s = l.state;
            let t = after.state;
            let key = instance_key(service_id, instance_id, major_version);
            let c = s.subscriptions[k];
            let others = s.subscriptions.filter(
                |x: ClientSubscription| !is_part(x, key, eventgroup_id, subscription_id),
            );
            let still_wanted = exists|i: int|
                0 <= i < others.len() && (#[trigger] others[i]).service == key
                    && others[i].eventgroup_id == eventgroup_id;
            let port_wanted = exists|i: int|
                0 <= i < others.len() && (#[trigger] others[i]).service == key
                    && others[i].local_endpoint.port == c.local_endpoint.port;
            let freed = EndpointUse {
                port: c.local_endpoint.port,
                service_id: key.service_id,
                instance_id: key.instance_id,
            };
            let queue = t.pending_unicast_sd;
            let before = s.pending_unicast_sd;
            &&& effects.len() == 0
            &&& t.subscriptions == others
            &&& t.subscription_endpoint_usage == (if port_wanted {
                s.subscription_endpoint_usage
            } else {
                s.subscription_endpoint_usage.filter(|u: EndpointUse| u != freed)
            })
            &&& match lookup(s.discovered, key) {
                Some(d) => if still_wanted || (d.udp_endpoint is None && d.tcp_endpoint is None) {
                    queue == before
                } else {
                    &&& queue.len() == before.len() + 1
                    &&& queue.drop_last() == before
                    &&& exists|endpoint: SocketAddr, used: Transport|
                        {
                            &&& #[trigger] used_at(
                                d.udp_endpoint,
                                d.tcp_endpoint,
                                s.config.preferred(),
                                endpoint,
                                used,
                            )
                            &&& asks_one(
                                queue.last(),
                                d.sd_endpoint,
                                key,
                                eventgroup_id,
                                0,
                                SocketAddr { ip, port: c.local_endpoint.port },
                                match c.chosen {
                                    Some(transport) => transport,
                                    None => used,
                                },
                            )
                        }
                },
                None => queue == before,
            }
            &&& t == (StateView {
                subscriptions: t.subscriptions,
                subscription_endpoint_usage: t.subscription_endpoint_usage,
                pending_unicast_sd: queue,
                pending_unicast_sd_deadline: t.pending_unicast_sd_deadline,
                ..s
            })
        }),
{
    let s = l.state;
    let command = Command::Unsubscribe {
        service_id,
        instance_id,
        major_version,
        eventgroup_id,
        subscription_id,
    };
    let key = instance_key(service_id, instance_id, major_version);
    let c = s.subscriptions[k];
    lemma_plain_command(l, command, now, reply);
    lemma_meant(s.subscriptions, key, eventgroup_id, subscription_id, 0, k);
    let p = |x: ClientSubscription| !is_part(x, key, eventgroup_id, subscription_id);
    let q = not_subscription(key, eventgroup_id, subscription_id);
    assert(p =~= q) by {
        assert forall|x: ClientSubscription| #[trigger] p(x) == q(x) by {}
    }
    let freed = EndpointUse {
        port: c.local_endpoint.port,
        service_id: key.service_id,
        instance_id: key.instance_id,
    };
    let u = |x: EndpointUse| x != freed;
    assert(u =~= crate::runtime::state::other_use(freed)) by {
        assert forall|x: EndpointUse| #[trigger] u(x) == crate::runtime::state::other_use(freed)(
            x,
        ) by {}
    }
    assert(reachable_ip(s) == Some(ip));
    let t = after_unsubscribe(s, key, eventgroup_id, subscription_id, now);
    lemma_one_executed(
        t,
        ActionView::Deliver { to: 0, message: DeliveryView::HasSubscribers(true) },
    );
    if let Some(d) = lookup(s.discovered, key) {
        if let Some((endpoint, used)) = d.endpoint(s.config.preferred() == Transport::Tcp) {
            let transport = match c.chosen {
                Some(transport) => transport,
                None => used,
            };
            lemma_one_asked(
                s,
                key,
                eventgroup_id,
                0,
                SocketAddr { ip, port: c.local_endpoint.port },
                transport,
                d.sd_endpoint,
            );
            assert(used_at(
                d.udp_endpoint,
                d.tcp_endpoint,
                s.config.preferred(),
                endpoint,
                used,
            ));
        }
        if t.pending_unicast_sd.len() > s.pending_unicast_sd.len() {
            assert(t.pending_unicast_sd.drop_last() =~= s.pending_unicast_sd);
        }
    }
}

/// A message that withdraws an eventgroup ends the subscription at the server that serves it:
/// the server that reads it no longer sends events of the eventgroup to the endpoint.
pub proof fn a_withdrawal_ends_the_subscription_at_its_server(
    a: ActionView,
    to: SocketAddr,
    key: ServiceKey,
    eventgroup_id: u16,
    at: SocketAddr,
    transport: Transport,
    session: u16,
    data: Vec<u8>,
    server: LoopView,
    from: SocketAddr,
    now: u64,
    reply: ChannelId,
    other: SubscriberSlot,
)
    requires
        server.wf(),
        asks_one(a, to, key, eventgroup_id, 0, at, transport),
        data@ == a->SendSd_message.bytes(session),
        at.ip is V4,
        names_host(at),
        lookup(server.state.offered, key) matches Some(o) && (match transport {
            Transport::Udp => o.udp_endpoint is Some,
            Transport::Tcp => o.tcp_endpoint is Some,
        }),
        !shows_reboot(
            server.state,
            from.ip,
            a->SendSd_message.flags,
            session_in(data@),
        ),
    ensures
        ({
            let (after, _) = reaction(server, LoopEvent::SdPacket { data, from }, now, reply);
            let m = a->SendSd_message;
            let slot = slot_at(m.entries[0], at);
            &&& slot.endpoint == at
            &&& slot.group.service_id == key.service_id
            &&& slot.group.instance_id == key.instance_id
            &&& slot.group.major_version == key.major_version
            &&& slot.group.eventgroup_id == eventgroup_id
            &&& !has_key(after.state.server_subscribers, slot)
            &&& other != slot ==> lookup(after.state.server_subscribers, other) == lookup(
                server.state.server_subscribers,
                other,
            )
        }),
{
    let m = a->SendSd_message;
    assert(message_in(m.bytes(session)) == Some(m));
    assert(can_serve(server.state, m, m.entries[0], at, transport));
    an_unsubscription_is_taken(server, data, m, from, now, reply, at, transport, other);
}

/// What awaits the answer for an eventgroup of a service.
pub open spec fn awaits(row: PendingRow, key: ServiceKey, eventgroup_id: u16) -> bool {
    row.0 == (PendingSubscriptionKey {
        service_id: key.service_id,
        instance_id: key.instance_id,
        major_version: key.major_version,
        eventgroup_id,
    })
}

/// A subscription to several eventgroups of a service is under way.
pub open spec fn is_of_several(s: StateView, key: ServiceKey, subscription_id: u64) -> bool {
    has_key(
        s.multi,
        crate::runtime::state::MultiEventgroupSubscriptionKey {
            service_id: key.service_id,
            instance_id: key.instance_id,
            major_version: key.major_version,
            subscription_id,
        },
    )
}

proof fn lemma_all_told(
    s: StateView,
    acts: Seq<ActionView>,
    e: SdEntry,
    waiting: Seq<PendingRow>,
    n: int,
    j: int,
    to: ChannelId,
)
    requires
        distinct(s.multi),
        0 <= n <= waiting.len(),
        0 <= j < waiting.len(),
        waiting[j].1.response == Some(to),
        !has_key(s.multi, multi_key(e, waiting[j].1.subscription_id)),
        forall|i: int| 0 <= i < acts.len() ==> (#[trigger] acts[i]) is Deliver,
    ensures
        ({
            let (t, a) = acked_many(s, acts, e, waiting, n);
            let (u, b) = nacked_many(s, acts, e, waiting, n);
            let id = waiting[j].1.subscription_id;
            &&& distinct(t.multi)
            &&& distinct(u.multi)
            &&& !has_key(t.multi, multi_key(e, id))
            &&& !has_key(u.multi, multi_key(e, id))
            &&& forall|i: int| 0 <= i < a.len() ==> (#[trigger] a[i]) is Deliver
            &&& forall|i: int| 0 <= i < b.len() ==> (#[trigger] b[i]) is Deliver
            &&& j < n ==> a.contains(
                ActionView::Deliver { to, message: DeliveryView::Subscribed(Ok(id)) },
            )
            &&& j < n ==> b.contains(
                ActionView::Deliver {
                    to,
                    message: DeliveryView::Subscribed(Err(ErrorView::SubscriptionRejected)),
                },
            )
        }),
    decreases n,
{
    if n > 0 {
        lemma_all_told(s, acts, e, waiting, n - 1, j, to);
        let (t, a) = acked_many(s, acts, e, waiting, n - 1);
        let (u, b) = nacked_many(s, acts, e, waiting, n - 1);
        let (t2, a2) = acked_many(s, acts, e, waiting, n);
        let (u2, b2) = nacked_many(s, acts, e, waiting, n);
        let p = waiting[n - 1].1;
        let k = multi_key(e, p.subscription_id);
        let id = waiting[j].1.subscription_id;
        lemma_without(t.multi, k);
        lemma_without(u.multi, k);
        lemma_without_keeps(t.multi, k, multi_key(e, id));
        lemma_without_keeps(u.multi, k, multi_key(e, id));
        if let Some(multi) = lookup(t.multi, k) {
            let marked = crate::runtime::state::MultiView {
                acked: multi.acked.insert(e.eventgroup_id),
                ..multi
            };
            lemma_put(t.multi, k, marked);
        }
        let done = ActionView::Deliver { to, message: DeliveryView::Subscribed(Ok(id)) };
        let failed = ActionView::Deliver {
            to,
            message: DeliveryView::Subscribed(Err(ErrorView::SubscriptionRejected)),
        };
        if n - 1 == j {
            assert(a2 == a + seq![done]);
            assert(a2[a.len() as int] == done);
            assert(b2 == b + seq![failed]);
            assert(b2[b.len() as int] == failed);
        } else if j < n - 1 {
            let x = choose|x: int| 0 <= x < a.len() && a[x] == done;
            assert(a2[x] == done);
            let y = choose|y: int| 0 <= y < b.len() && b[y] == failed;
            assert(b2[y] == failed);
        }
    }
}

proof fn lemma_without_keeps<K, V>(s: Seq<(K, V)>, k: K, other: K)
    requires
        distinct(s),
        !has_key(s, other),
    ensures
        !has_key(without(s, k), other),
{
    lemma_without(s, k);
    if k != other {
        assert(lookup(without(s, k), other) == lookup(s, other));
    }
}

proof fn lemma_deliveries_done(s: StateView, actions: Seq<ActionView>, n: int)
    requires
        0 <= n <= actions.len(),
        forall|i: int| 0 <= i < actions.len() ==> (#[trigger] actions[i]) is Deliver,
    ensures
        ({
            let (t, effects) = executed_all(s, actions, n);
            &&& t == s
            &&& effects.len() == n
            &&& forall|i: int|
                0 <= i < n ==> #[trigger] effects[i] == (EffectView::Deliver {
                    to: actions[i]->Deliver_to,
                    message: actions[i]->Deliver_message,
                })
        }),
    decreases n,
{
    if n > 0 {
        lemma_deliveries_done(s, actions, n - 1);
        assert(actions[n - 1] is Deliver);
    }
}

proof fn lemma_answer_entry(
    s: StateView,
    m: SdMessageView,
    e: SdEntry,
    from: SocketAddr,
    now: u64,
)
    requires
        e.entry_type is SubscribeEventgroupAck,
    ensures
        entry_handled(s, Seq::empty(), m, e, from, now) == (if e.ttl == 0 {
            after_nack(s, Seq::empty(), e)
        } else {
            after_ack(s, Seq::empty(), e)
        }),
{
}

proof fn lemma_answer_handled(
    s: StateView,
    m: SdMessageView,
    e: SdEntry,
    from: SocketAddr,
    now: u64,
    row: PendingRow,
    to: ChannelId,
)
    requires
        s.wf(),
        e.entry_type is SubscribeEventgroupAck,
        s.pending_subscriptions.contains(row),
        awaits(row, spoken_of(e), e.eventgroup_id),
        row.1.response == Some(to),
        !is_of_several(s, spoken_of(e), row.1.subscription_id),
    ensures
        ({
            let (t, acts) = entry_handled(s, Seq::empty(), m, e, from, now);
            let (u, effects) = carried_out((t, clustered(acts)));
            &&& u == t
            &&& t == (if e.ttl == 0 {
                after_nack(s, Seq::empty(), e).0
            } else {
                after_ack(s, Seq::empty(), e).0
            })
            &&& effects.contains(
                EffectView::Deliver {
                    to,
                    message: DeliveryView::Subscribed(
                        if e.ttl == 0 {
                            Err(ErrorView::SubscriptionRejected)
                        } else {
                            Ok(row.1.subscription_id)
                        },
                    ),
                },
            )
        }),
{
    let rows = s.pending_subscriptions;
    let waiting = rows.filter(awaiting(pending_key(e)));
    let n = waiting.len() as int;
    let left = StateView {
        pending_subscriptions: rows.filter(awaiting_other(pending_key(e))),
        ..s
    };
    crate::rows::lemma_filter_contains(rows, awaiting(pending_key(e)), row);
    let j = choose|j: int| 0 <= j < waiting.len() && waiting[j] == row;
    lemma_all_told(left, Seq::empty(), e, waiting, n, j, to);
    lemma_answer_entry(s, m, e, from, now);
    let outcome = if e.ttl == 0 {
        Err(ErrorView::SubscriptionRejected)
    } else {
        Ok(row.1.subscription_id)
    };
    let told = ActionView::Deliver { to, message: DeliveryView::Subscribed(outcome) };
    let (t, acts) = if e.ttl == 0 {
        after_nack(s, Seq::empty(), e)
    } else {
        after_ack(s, Seq::empty(), e)
    };
    assert(forall|i: int| 0 <= i < acts.len() ==> (#[trigger] acts[i]) is Deliver);
    assert(acts.contains(told));
    lemma_answer_carried_out(t, acts, told);
}

proof fn lemma_answer_carried_out(t: StateView, acts: Seq<ActionView>, told: ActionView)
    requires
        forall|i: int| 0 <= i < acts.len() ==> (#[trigger] acts[i]) is Deliver,
        acts.contains(told),
    ensures
        carried_out((t, clustered(acts))).0 == t,
        carried_out((t, clustered(acts))).1.contains(
            EffectView::Deliver { to: told->Deliver_to, message: told->Deliver_message },
        ),
{
    assert(clustered(acts) == acts) by {
        lemma_nothing_clustered(acts);
    }
    lemma_deliveries_done(t, acts, acts.len() as int);
    let x = choose|x: int| 0 <= x < acts.len() && acts[x] == told;
    let (_, effects) = carried_out((t, acts));
    assert(effects[x] == (EffectView::Deliver {
        to: told->Deliver_to,
        message: told->Deliver_message,
    }));
}

/// A subscription to one eventgroup that awaits its answer succeeds with the acknowledgement of
/// its server and fails with the refusal, and its handle hears of it. Either way nothing awaits
/// that answer any more; an acknowledgement ends no subscription, and a refusal ends those to the
/// eventgroup.
pub proof fn an_answer_is_believed(
    l: LoopView,
    data: Vec<u8>,
    m: SdMessageView,
    from: SocketAddr,
    now: u64,
    reply: ChannelId,
    row: PendingRow,
    to: ChannelId,
)
    requires
        l.wf(),
        message_in(data@) == Some(m),
        m.entries.len() == 1,
        m.entries[0].entry_type is SubscribeEventgroupAck,
        !shows_reboot(l.state, from.ip, m.flags, session_in(data@)),
        l.state.pending_subscriptions.contains(row),
        awaits(row, spoken_of(m.entries[0]), m.entries[0].eventgroup_id),
        row.1.response == Some(to),
        !is_of_several(l.state, spoken_of(m.entries[0]), row.1.subscription_id),
    ensures
        ({
            let (after, effects) = reaction(l, LoopEvent::SdPacket { data, from }, now, reply);
            let e = m.entries[0];
            let rows = after.state.pending_subscriptions;
            let subs = after.state.subscriptions;
            &&& effects.contains(
                EffectView::Deliver {
                    to,
                    message: DeliveryView::Subscribed(
                        if e.ttl == 0 {
                            Err(ErrorView::SubscriptionRejected)
                        } else {
                            Ok(row.1.subscription_id)
                        },
                    ),
                },
            )
            &&& forall|i: int|
                0 <= i < rows.len() ==> !awaits(#[trigger] rows[i], spoken_of(e), e.eventgroup_id)
            &&& e.ttl > 0 ==> subs == l.state.subscriptions
            &&& e.ttl == 0 ==> forall|i: int|
                0 <= i < subs.len() ==> !((#[trigger] subs[i]).service == spoken_of(e)
                    && subs[i].eventgroup_id == e.eventgroup_id)
        }),
{
    let s = l.state;
    let e = m.entries[0];
    let noted = session_noted(s, from.ip, m.flags, session_in(data@));
    lemma_noted(s, from.ip, m.flags, session_in(data@));
    lemma_one_entry_read(l, data, m, from, now, reply);
    lemma_answer_handled(noted, m, e, from, now, row, to);
    crate::runtime::subscription_laws::an_answer_ends_the_wait(noted, Seq::empty(), e);
    let rows = reaction(l, LoopEvent::SdPacket { data, from }, now, reply).0.state.pending_subscriptions;
    assert forall|i: int| 0 <= i < rows.len() implies !awaits(
        #[trigger] rows[i],
        spoken_of(e),
        e.eventgroup_id,
    ) by {
        assert(rows[i].0 != pending_key(e));
    }
}

/// A subscription to one eventgroup succeeds: what it asks its server for, read by a server that
/// can serve it, has its events sent to its endpoint; and what the server answers, read by the
/// client, lets its handle hear of the success.
pub proof fn a_subscription_succeeds(
    before: StateView,
    client: LoopView,
    r: RequestView,
    at: SocketAddr,
    dedicated: bool,
    conn_key: u64,
    transport: Transport,
    session: u16,
    question: Vec<u8>,
    server: LoopView,
    from: SocketAddr,
    now: u64,
    reply: ChannelId,
    answer_session: u16,
    answer: Vec<u8>,
    host: SocketAddr,
    later: u64,
)
    requires
        client.wf(),
        server.wf(),
        begun(before, client.state, r, at, dedicated, conn_key, transport),
        r.eventgroup_ids.len() == 1,
        0 < r.ttl <= 0xFF_FFFF,
        !answer_awaited(before, r.key, r.eventgroup_ids[0]),
        !is_of_several(before, r.key, r.subscription_id),
        at.ip is V4,
        names_host(at),
        lookup(server.state.offered, r.key) matches Some(o) && (match transport {
            Transport::Udp => o.udp_endpoint is Some,
            Transport::Tcp => o.tcp_endpoint is Some,
        }),
        question@ == client.state.pending_unicast_sd.last()->SendSd_message.bytes(session),
        !shows_reboot(
            server.state,
            from.ip,
            client.state.pending_unicast_sd.last()->SendSd_message.flags,
            session_in(question@),
        ),
        answer@ == reaction(
            server,
            LoopEvent::SdPacket { data: question, from },
            now,
            reply,
        ).0.state.pending_unicast_sd.last()->SendSd_message.bytes(answer_session),
        !shows_reboot(client.state, host.ip, message_in(answer@)->0.flags, session_in(answer@)),
    ensures
        ({
            let (serving, _) = reaction(
                server,
                LoopEvent::SdPacket { data: question, from },
                now,
                reply,
            );
            let (_, heard) = reaction(
                client,
                LoopEvent::SdPacket { data: answer, from: host },
                later,
                reply,
            );
            let g = r.eventgroup_ids[0];
            &&& lookup(
                serving.state.server_subscribers,
                SubscriberSlot {
                    group: SubscriberKey {
                        service_id: r.key.service_id,
                        instance_id: r.key.instance_id,
                        major_version: r.key.major_version,
                        eventgroup_id: g,
                    },
                    endpoint: at,
                },
            ) matches Some(served) && served.transport == transport
            &&& heard.contains(
                EffectView::Deliver {
                    to: r.response,
                    message: DeliveryView::Subscribed(Ok(r.subscription_id)),
                },
            )
        }),
{
    let a = client.state.pending_unicast_sd.last();
    let m = a->SendSd_message;
    let g = r.eventgroup_ids[0];
    assert(asks_for_rest(a, before, r, at, transport));
    lemma_single_entry(a, before, r, at, transport);
    assert(message_in(m.bytes(session)) == Some(m));
    let e = m.entries[0];
    assert(can_serve(server.state, m, e, at, transport));
    a_subscription_is_taken(
        server,
        question,
        m,
        from,
        now,
        reply,
        at,
        transport,
        slot_at(e, at),
    );
    let (serving, _) = reaction(server, LoopEvent::SdPacket { data: question, from }, now, reply);
    let b = serving.state.pending_unicast_sd.last();
    let n = b->SendSd_message;
    assert(message_in(n.bytes(answer_session)) == Some(n));
    let rows = client.state.pending_subscriptions;
    let row = rows[rows.len() - 1];
    assert(rows.contains(row));
    an_answer_is_believed(client, answer, n, host, later, reply, row, r.response);
}

proof fn lemma_single_entry(
    a: ActionView,
    s: StateView,
    r: RequestView,
    at: SocketAddr,
    transport: Transport,
)
    requires
        asks_for_rest(a, s, r, at, transport),
        r.eventgroup_ids.len() == 1,
        !answer_awaited(s, r.key, r.eventgroup_ids[0]),
    ensures
        ({
            let m = a->SendSd_message;
            &&& m.entries.len() == 1
            &&& entry_asks(m, m.entries[0], r.key, r.eventgroup_ids[0], r.ttl, at, transport)
        }),
{
    let m = a->SendSd_message;
    let ids = r.eventgroup_ids;
    let j = choose|j: int|
        0 <= j < m.entries.len() && (#[trigger] m.entries[j]).eventgroup_id == ids[0];
    assert forall|k: int| 0 <= k < m.entries.len() implies (
    #[trigger] m.entries[k]).eventgroup_id == ids[0] by {
        let g = m.entries[k].eventgroup_id;
        assert(ids.contains(g));
        let x = choose|x: int| 0 <= x < ids.len() && ids[x] == g;
    }
    if m.entries.len() > 1 {
        assert(m.entries[0].eventgroup_id != m.entries[1].eventgroup_id);
    }
}

} // verus!
