//! What holds of the client's side of a subscription: what it asks its server for, where it gets
//! its events, and how it ends.

use crate::config::{PortSpec, Transport, TransportSelection};
use crate::error::{ErrorView, IoError};
use crate::ids::{InstanceId, ServiceId};
use crate::message::{ChannelId, DeliveryView};
use crate::net::{IpAddr, SocketAddr};
use crate::runtime::action::ActionView;
use crate::runtime::command::Command;
use crate::runtime::event_loop::{
    binding_handled, carried_out, connection_handled, reaction, step_effects, LoopEvent, LoopView,
};
use crate::runtime::execute::EffectView;
use crate::runtime::offer_laws::instance_key;
use crate::runtime::reader_laws::used_at;
use crate::runtime::reading::{lemma_one_executed, message_in};
use crate::runtime::sd::subscribe_message;
use crate::runtime::sd_client::reachable_ip;
use crate::runtime::state::{
    ClientSubscription, DiscoveredService, EndpointUse, PendingSubscription, PendingSubscriptionKey,
    ServiceKey, StateView,
};
use crate::runtime::subscribe::{
    after_subscribe_command, after_subscription, not_yet_awaited, pending_key_for, request_of,
    subscribe_command_step, subscribe_path, subscribe_refusal, subscription_id_used, RequestView,
    StepView, SubscribePath, SubscribeRequest,
};
use crate::runtime::subscribing_laws::{entry_asks, lemma_subscribe_says, names_host};
use crate::table::{has_key, lookup};
use vstd::prelude::*;

verus! {

/// An answer for an eventgroup of a service is awaited.
pub open spec fn answer_awaited(s: StateView, key: ServiceKey, eventgroup_id: u16) -> bool {
    exists|i: int|
        0 <= i < s.pending_subscriptions.len() && (#[trigger] s.pending_subscriptions[i]).0
            == (PendingSubscriptionKey {
            service_id: key.service_id,
            instance_id: key.instance_id,
            major_version: key.major_version,
            eventgroup_id,
        })
}

/// The subscriptions to single eventgroups of which a subscription consists.
pub open spec fn parts(
    r: RequestView,
    at: SocketAddr,
    dedicated: bool,
    conn_key: u64,
) -> Seq<ClientSubscription> {
    Seq::new(
        r.eventgroup_ids.len(),
        |i: int|
            ClientSubscription {
                service: r.key,
                subscription_id: r.subscription_id,
                eventgroup_id: r.eventgroup_ids[i],
                events_tx: r.events,
                local_endpoint: at,
                has_dedicated_socket: dedicated,
                tcp_conn_key: conn_key,
                chosen: r.chosen,
            },
    )
}

/// A message to a server asks, at one endpoint and for one lifetime, for exactly those of the
/// eventgroups for which no answer is awaited, each once, and can be read.
pub open spec fn asks_for_rest(
    a: ActionView,
    s: StateView,
    r: RequestView,
    at: SocketAddr,
    transport: Transport,
) -> bool {
    let m = a->SendSd_message;
    &&& a == (ActionView::SendSd { message: m, target: r.sd_endpoint })
    &&& m.flags & 0x40 != 0
    &&& forall|j: int|
        0 <= j < m.entries.len() ==> {
            let g = (#[trigger] m.entries[j]).eventgroup_id;
            &&& entry_asks(m, m.entries[j], r.key, g, r.ttl, at, transport)
            &&& r.eventgroup_ids.contains(g)
            &&& !answer_awaited(s, r.key, g)
        }
    &&& forall|j: int, k: int|
        0 <= j < k < m.entries.len() ==> (#[trigger] m.entries[j]).eventgroup_id != (
        #[trigger] m.entries[k]).eventgroup_id
    &&& forall|i: int|
        0 <= i < r.eventgroup_ids.len() && !answer_awaited(
            s,
            r.key,
            #[trigger] r.eventgroup_ids[i],
        ) ==> exists|j: int|
            0 <= j < m.entries.len() && (#[trigger] m.entries[j]).eventgroup_id
                == r.eventgroup_ids[i]
    &&& r.ttl <= 0xFF_FFFF ==> forall|session: u16| #[trigger]
        message_in(m.bytes(session)) == Some(m)
}

/// A subscription has begun: its parts are there, its port is in use for the service, and its
/// server is asked for the eventgroups for which it was not asked already.
pub open spec fn begun(
    s: StateView,
    t: StateView,
    r: RequestView,
    at: SocketAddr,
    dedicated: bool,
    conn_key: u64,
    transport: Transport,
) -> bool {
    let queue = t.pending_unicast_sd;
    let before = s.pending_unicast_sd;
    let used = EndpointUse {
        port: at.port,
        service_id: r.key.service_id,
        instance_id: r.key.instance_id,
    };
    &&& t.subscriptions == s.subscriptions + parts(r, at, dedicated, conn_key)
    &&& t.subscription_endpoint_usage.contains(used)
    &&& forall|u: EndpointUse|
        u != used ==> (#[trigger] t.subscription_endpoint_usage.contains(u)
            <==> s.subscription_endpoint_usage.contains(u))
    &&& if exists|i: int|
        0 <= i < r.eventgroup_ids.len() && !answer_awaited(
            s,
            r.key,
            #[trigger] r.eventgroup_ids[i],
        ) {
        &&& queue.len() == before.len() + 1
        &&& queue.drop_last() == before
        &&& asks_for_rest(queue.last(), s, r, at, transport)
    } else {
        queue == before
    }
    &&& r.eventgroup_ids.len() == 1 ==> {
        &&& t.pending_subscriptions == s.pending_subscriptions.push(
            (
                PendingSubscriptionKey {
                    service_id: r.key.service_id,
                    instance_id: r.key.instance_id,
                    major_version: r.key.major_version,
                    eventgroup_id: r.eventgroup_ids[0],
                },
                PendingSubscription {
                    subscription_id: r.subscription_id,
                    response: Some(r.response),
                },
            ),
        )
        &&& t.multi == s.multi
    }
    &&& t.discovered == s.discovered
    &&& t.offered == s.offered
    &&& t.find_requests == s.find_requests
    &&& t.server_subscribers == s.server_subscribers
    &&& t.pending_calls == s.pending_calls
}

pub proof fn lemma_rest(s: StateView, r: RequestView, n: int)
    requires
        0 <= n <= r.eventgroup_ids.len(),
    ensures
        ({
            let rest = not_yet_awaited(s.pending_subscriptions, r, n);
            &&& rest.len() <= n
            &&& rest.no_duplicates()
            &&& forall|g: u16| #[trigger]
                rest.contains(g) <==> r.eventgroup_ids.take(n).contains(g) && !answer_awaited(
                    s,
                    r.key,
                    g,
                )
        }),
    decreases n,
{
    let ids = r.eventgroup_ids;
    if n > 0 {
        lemma_rest(s, r, n - 1);
        let before = not_yet_awaited(s.pending_subscriptions, r, n - 1);
        let rest = not_yet_awaited(s.pending_subscriptions, r, n);
        let last = ids[n - 1];
        let (more, fewer) = (ids.take(n), ids.take(n - 1));
        assert(answer_awaited(s, r.key, last) == crate::runtime::subscribe::is_awaited(
            s.pending_subscriptions,
            pending_key_for(r.key, last),
        ));
        assert forall|g: u16| #[trigger] more.contains(g) <==> fewer.contains(g) || g == last by {
            if fewer.contains(g) {
                let j = choose|j: int| 0 <= j < fewer.len() && fewer[j] == g;
                assert(more[j] == g);
            }
            if more.contains(g) {
                let j = choose|j: int| 0 <= j < more.len() && more[j] == g;
                if j < n - 1 {
                    assert(fewer[j] == g);
                }
            }
            assert(more[n - 1] == last);
        }
        assert forall|g: u16| #[trigger] rest.contains(g) <==> more.contains(g) && !answer_awaited(
            s,
            r.key,
            g,
        ) by {
            assert(before.contains(g) <==> fewer.contains(g) && !answer_awaited(s, r.key, g));
            if rest.len() > before.len() {
                assert(rest == before.push(last));
                assert(rest[before.len() as int] == last);
                if before.contains(g) {
                    let j = choose|j: int| 0 <= j < before.len() && before[j] == g;
                    assert(rest[j] == g);
                }
                if rest.contains(g) {
                    let j = choose|j: int| 0 <= j < rest.len() && rest[j] == g;
                    if j < before.len() {
                        assert(before[j] == g);
                    }
                }
            }
        }
        if rest.len() > before.len() {
            assert(!before.contains(last));
            assert forall|i: int, j: int|
                0 <= i < rest.len() && 0 <= j < rest.len() && i != j implies rest[i] != rest[j] by {
                if i < before.len() {
                    assert(before.contains(before[i]));
                }
                if j < before.len() {
                    assert(before.contains(before[j]));
                }
            }
        }
    } else {
        assert(ids.take(0) =~= Seq::<u16>::empty());
    }
}

/// A subscription with an endpoint begins there.
pub proof fn lemma_begun(
    s: StateView,
    r: RequestView,
    at: SocketAddr,
    dedicated: bool,
    conn_key: u64,
    transport: Transport,
    now: u64,
)
    requires
        r.eventgroup_ids.len() <= 0x100_0000,
    ensures
        begun(
            s,
            after_subscription(s, r, at, dedicated, conn_key, transport, now),
            r,
            at,
            dedicated,
            conn_key,
            transport,
        ),
{
    let t = after_subscription(s, r, at, dedicated, conn_key, transport, now);
    let ids = r.eventgroup_ids;
    let n = ids.len() as int;
    let rest = not_yet_awaited(s.pending_subscriptions, r, n);
    lemma_rest(s, r, n);
    assert(ids.take(n) =~= ids);
    lemma_subscribe_says(r.key, rest, at, s.flags(true), r.ttl, transport);
    crate::runtime::state::flag_laws(s, true);
    let m = subscribe_message(r.key, rest, at.ip, at.port, s.flags(true), r.ttl, transport);
    assert(t.subscriptions =~= s.subscriptions + parts(r, at, dedicated, conn_key));
    if ids.len() == 1 {
        assert(t.pending_subscriptions =~= s.pending_subscriptions.push(
            (
                pending_key_for(r.key, ids[0]),
                PendingSubscription {
                    subscription_id: r.subscription_id,
                    response: Some(r.response),
                },
            ),
        ));
    }
    let usage = s.subscription_endpoint_usage;
    let used = EndpointUse {
        port: at.port,
        service_id: r.key.service_id,
        instance_id: r.key.instance_id,
    };
    if !usage.contains(used) {
        let more = usage.push(used);
        assert(more[usage.len() as int] == used);
        assert forall|u: EndpointUse| u != used implies (#[trigger] more.contains(u)
            <==> usage.contains(u)) by {
            if usage.contains(u) {
                let j = choose|j: int| 0 <= j < usage.len() && usage[j] == u;
                assert(more[j] == u);
            }
            if more.contains(u) {
                let j = choose|j: int| 0 <= j < more.len() && more[j] == u;
                assert(usage[j] == u);
            }
        }
    }
    if rest.len() > 0 {
        assert(rest.contains(rest[0]));
        let i = choose|i: int| 0 <= i < ids.len() && ids[i] == rest[0];
        assert(!answer_awaited(s, r.key, ids[i]));
        assert(t.pending_unicast_sd.drop_last() =~= s.pending_unicast_sd);
        let a = ActionView::SendSd { message: m, target: r.sd_endpoint };
        assert(t.pending_unicast_sd.last() == a);
        assert forall|j: int| 0 <= j < m.entries.len() implies {
            let g = (#[trigger] m.entries[j]).eventgroup_id;
            &&& entry_asks(m, m.entries[j], r.key, g, r.ttl, at, transport)
            &&& ids.contains(g)
            &&& !answer_awaited(s, r.key, g)
        } by {
            assert(rest.contains(rest[j]));
        }
        assert forall|j: int, k: int| 0 <= j < k < m.entries.len() implies (
        #[trigger] m.entries[j]).eventgroup_id != (#[trigger] m.entries[k]).eventgroup_id by {
            assert(rest[j] != rest[k]);
        }
        assert forall|i: int|
            0 <= i < ids.len() && !answer_awaited(s, r.key, #[trigger] ids[i]) implies exists|
            j: int,
        |
            0 <= j < m.entries.len() && (#[trigger] m.entries[j]).eventgroup_id == ids[i] by {
            assert(ids.contains(ids[i]));
            assert(rest.contains(ids[i]));
            let j = choose|j: int| 0 <= j < rest.len() && rest[j] == ids[i];
            assert(m.entries[j].eventgroup_id == ids[i]);
        }
        assert(asks_for_rest(a, s, r, at, transport));
    } else {
        assert forall|i: int| 0 <= i < ids.len() implies answer_awaited(
            s,
            r.key,
            #[trigger] ids[i],
        ) by {
            assert(ids.contains(ids[i]));
            if !answer_awaited(s, r.key, ids[i]) {
                assert(rest.contains(ids[i]));
            }
        }
    }
}

/// How a service is subscribed to: as the handle has selected, or else at the endpoint with which
/// the service is used, from any port.
pub open spec fn wanted(
    s: StateView,
    d: DiscoveredService,
    selection: Option<TransportSelection>,
    endpoint: SocketAddr,
    transport: Transport,
    local_port: PortSpec,
) -> bool {
    match selection {
        Some(x) => x.remote_endpoint == endpoint && x.transport == transport && x.local_port
            == local_port,
        None => used_at(d.udp_endpoint, d.tcp_endpoint, s.config.preferred(), endpoint, transport)
            && local_port is Any,
    }
}

/// The address under which a host can be reached: the advertised one, or else that of the
/// discovery socket, or else that of the request socket, as far as they name a host.
pub open spec fn reached_at(s: StateView, ip: IpAddr) -> bool {
    match s.config.advertised_ip {
        Some(advertised) => ip == advertised,
        None => if names_host(s.local_endpoint) {
            ip == s.local_endpoint.ip
        } else {
            names_host(s.client_rpc_endpoint) && ip == s.client_rpc_endpoint.ip
        },
    }
}

/// What a subscription asks for: under the next identifier, of the host that offers the service,
/// and for the longer of the configured lifetime and the offer's.
pub open spec fn asked(
    s: StateView,
    key: ServiceKey,
    eventgroup_ids: Seq<u16>,
    events: ChannelId,
    response: ChannelId,
    d: DiscoveredService,
    selection: Option<TransportSelection>,
) -> RequestView {
    RequestView {
        key,
        eventgroup_ids,
        events,
        response,
        subscription_id: s.next_subscription_id,
        sd_endpoint: d.sd_endpoint,
        ttl: if s.config.subscribe_ttl >= d.ttl {
            s.config.subscribe_ttl
        } else {
            d.ttl
        },
        chosen: match selection {
            Some(x) => Some(x.transport),
            None => None,
        },
    }
}

/// A subscription to the service exists.
pub open spec fn any_subscription(s: StateView, key: ServiceKey) -> bool {
    exists|i: int| 0 <= i < s.subscriptions.len() && (#[trigger] s.subscriptions[i]).service == key
}

/// A subscription to the service uses a connection slot.
pub open spec fn slot_taken(s: StateView, key: ServiceKey, slot: u64) -> bool {
    exists|i: int|
        0 <= i < s.subscriptions.len() && (#[trigger] s.subscriptions[i]).service == key
            && s.subscriptions[i].tcp_conn_key == slot
}

/// A connection slot is the first that no subscription to the service uses.
pub open spec fn first_free_slot(s: StateView, key: ServiceKey, slot: u64) -> bool {
    &&& !slot_taken(s, key, slot)
    &&& forall|smaller: u64| smaller < slot ==> #[trigger] slot_taken(s, key, smaller)
}

/// A port at which a further subscription to a service can get its events: free for the service
/// instance, and the request port or one that another service instance uses.
pub open spec fn shareable(s: StateView, key: ServiceKey, port: u16) -> bool {
    &&& !s.subscription_endpoint_usage.contains(
        EndpointUse { port, service_id: key.service_id, instance_id: key.instance_id },
    )
    &&& port == s.client_rpc_endpoint.port || exists|i: int|
        0 <= i < s.subscription_endpoint_usage.len() && (
        #[trigger] s.subscription_endpoint_usage[i]).port == port
}

spec fn subscribe_event(
    service_id: ServiceId,
    instance_id: InstanceId,
    major_version: u8,
    eventgroup_ids: Vec<u16>,
    events: ChannelId,
    response: ChannelId,
    selection: Option<TransportSelection>,
) -> LoopEvent {
    LoopEvent::Command {
        command: Command::Subscribe {
            service_id,
            instance_id,
            major_version,
            eventgroup_ids,
            events,
            response,
            selection,
        },
    }
}

proof fn lemma_subscribe_reaction(
    l: LoopView,
    service_id: ServiceId,
    instance_id: InstanceId,
    major_version: u8,
    eventgroup_ids: Vec<u16>,
    events: ChannelId,
    response: ChannelId,
    selection: Option<TransportSelection>,
    now: u64,
    reply: ChannelId,
)
    ensures
        ({
            let s = l.state;
            let key = instance_key(service_id, instance_id, major_version);
            let ids = eventgroup_ids@;
            let t = after_subscribe_command(s, key, ids, events, response, selection, now);
            let refusal = subscribe_refusal(s, key, ids, selection);
            let step = subscribe_command_step(s, key, ids, events, response, selection);
            reaction(
                l,
                subscribe_event(
                    service_id,
                    instance_id,
                    major_version,
                    eventgroup_ids,
                    events,
                    response,
                    selection,
                ),
                now,
                reply,
            ) == (
                LoopView { state: t, ..l },
                match refusal {
                    Some(e) => seq![
                        EffectView::Deliver {
                            to: response,
                            message: DeliveryView::Subscribed(Err(e)),
                        },
                    ],
                    None => step_effects(step),
                },
            )
        }),
{
    let s = l.state;
    let key = instance_key(service_id, instance_id, major_version);
    let ids = eventgroup_ids@;
    let t = after_subscribe_command(s, key, ids, events, response, selection, now);
    let refusal = subscribe_refusal(s, key, ids, selection);
    let step = subscribe_command_step(s, key, ids, events, response, selection);
    let told = ActionView::Deliver {
        to: response,
        message: DeliveryView::Subscribed(Err(refusal->0)),
    };
    lemma_one_executed(t, told);
    match refusal {
        Some(e) => {
            let sent = seq![
                EffectView::Deliver { to: response, message: DeliveryView::Subscribed(Err(e)) },
            ];
            assert(step == StepView::Done);
            assert(sent + Seq::<EffectView>::empty() =~= sent);
        },
        None => {
            assert(Seq::<EffectView>::empty() + step_effects(step) =~= step_effects(step));
        },
    }
}

proof fn lemma_path(
    s: StateView,
    key: ServiceKey,
    d: DiscoveredService,
    selection: Option<TransportSelection>,
    endpoint: SocketAddr,
    transport: Transport,
    local_port: PortSpec,
    ip: IpAddr,
)
    requires
        lookup(s.discovered, key) == Some(d),
        wanted(s, d, selection, endpoint, transport, local_port),
        transport == Transport::Udp ==> reached_at(s, ip),
        s.subscriptions.len() <= u64::MAX,
    ensures
        match (transport, subscribe_path(s, key, selection)) {
            (Transport::Tcp, Ok(SubscribePath::Connect { endpoint: e, conn_key, local_port: p })) => {
                e == endpoint && p == local_port && first_free_slot(s, key, conn_key)
            },
            (Transport::Tcp, _) => false,
            (Transport::Udp, Ok(SubscribePath::First { endpoint: e })) => {
                &&& local_port is Any
                &&& !any_subscription(s, key)
                &&& e == (SocketAddr { ip, port: s.client_rpc_endpoint.port })
            },
            (Transport::Udp, Ok(SubscribePath::Reuse { endpoint: e })) => {
                &&& local_port is Any
                &&& any_subscription(s, key)
                &&& e.ip == ip
                &&& shareable(s, key, e.port)
            },
            (Transport::Udp, Ok(SubscribePath::Bind { ip: i, local_port: p })) => {
                &&& i == ip
                &&& p == local_port
                &&& local_port is Fixed || (any_subscription(s, key) && forall|port: u16|
                    !#[trigger] shareable(s, key, port))
            },
            _ => false,
        },
{
    crate::runtime::subscribe::next_slot_is_free(s.subscriptions, key);
    crate::runtime::state::reusable_port_is_free(s, key.service_id, key.instance_id);
    if transport == Transport::Udp {
        assert(reachable_ip(s) == Some(ip));
    } else {
        let used = crate::runtime::subscribe::slots_in_use(s.subscriptions, key);
        let slot = crate::runtime::subscribe::smallest_unused(used);
        assert forall|x: u64| #[trigger] slot_taken(s, key, x) == used.contains(x) by {}
        assert(first_free_slot(s, key, slot));
    }
    if s.reusable_port(key.service_id, key.instance_id) is None {
        assert forall|port: u16| !#[trigger] shareable(s, key, port) by {
            lemma_not_shareable(s, key, port);
        }
    }
}

proof fn lemma_not_shareable(s: StateView, key: ServiceKey, port: u16)
    requires
        s.reusable_port(key.service_id, key.instance_id) is None,
    ensures
        !shareable(s, key, port),
{
    crate::runtime::state::reusable_port_is_free(s, key.service_id, key.instance_id);
    if shareable(s, key, port) {
        let usage = s.subscription_endpoint_usage;
        let i = choose|i: int| 0 <= i < usage.len() && (#[trigger] usage[i]).port == port;
        assert(usage.contains(
            EndpointUse {
                port: usage[i].port,
                service_id: key.service_id,
                instance_id: key.instance_id,
            },
        ));
    }
}

/// A subscription to a known service goes the way that was selected, or else that of the
/// endpoint with which the service is used. Over TCP it first needs a connection to that
/// endpoint, in the first slot that is free. Over UDP from a fixed port it needs a socket there.
/// Over UDP from any port, the first subscription to a service begins at once, at the request
/// port; a further one at a port that it can share, or else it needs a socket of its own. In every
/// case it has the next identifier, and nothing is reported yet.
pub proof fn a_subscription_goes_its_way(
    l: LoopView,
    service_id: ServiceId,
    instance_id: InstanceId,
    major_version: u8,
    eventgroup_ids: Vec<u16>,
    events: ChannelId,
    response: ChannelId,
    selection: Option<TransportSelection>,
    now: u64,
    reply: ChannelId,
    d: DiscoveredService,
    endpoint: SocketAddr,
    transport: Transport,
    local_port: PortSpec,
    ip: IpAddr,
)
    requires
        l.wf(),
        l.state.subscriptions.len() <= u64::MAX,
        0 < eventgroup_ids@.len() <= 0x100_0000,
        lookup(l.state.discovered, instance_key(service_id, instance_id, major_version)) == Some(d),
        wanted(l.state, d, selection, endpoint, transport, local_port),
        transport == Transport::Udp ==> reached_at(l.state, ip),
    ensures
        ({
            let command = Command::Subscribe {
                service_id,
                instance_id,
                major_version,
                eventgroup_ids,
                events,
                response,
                selection,
            };
            let (after, effects) = reaction(l, LoopEvent::Command { command }, now, reply);
            let s = l.state;
            let t = after.state;
            let key = instance_key(service_id, instance_id, major_version);
            let r = asked(s, key, eventgroup_ids@, events, response, d, selection);
            let waiting = t == (StateView { next_subscription_id: t.next_subscription_id, ..s });
            &&& t.next_subscription_id != s.next_subscription_id
            &&& match transport {
                Transport::Tcp => {
                    let conn_key = effects[0]->Connect_conn_key;
                    &&& waiting
                    &&& effects == seq![
                        EffectView::Connect { endpoint, conn_key, local_port, request: r },
                    ]
                    &&& first_free_slot(s, key, conn_key)
                },
                Transport::Udp => if local_port is Fixed || (any_subscription(s, key) && forall|
                    port: u16,
                | !#[trigger] shareable(s, key, port)) {
                    &&& waiting
                    &&& effects == seq![EffectView::Bind { ip, local_port, request: r }]
                } else {
                    &&& effects.len() == 0
                    &&& exists|port: u16|
                        {
                            &&& if any_subscription(s, key) {
                                shareable(s, key, port)
                            } else {
                                port == s.client_rpc_endpoint.port
                            }
                            &&& #[trigger] begun(
                                s,
                                t,
                                r,
                                SocketAddr { ip, port },
                                false,
                                0,
                                Transport::Udp,
                            )
                        }
                },
            }
        }),
{
    let s = l.state;
    let key = instance_key(service_id, instance_id, major_version);
    let ids = eventgroup_ids@;
    lemma_subscribe_reaction(
        l,
        service_id,
        instance_id,
        major_version,
        eventgroup_ids,
        events,
        response,
        selection,
        now,
        reply,
    );
    lemma_path(s, key, d, selection, endpoint, transport, local_port, ip);
    let r = asked(s, key, ids, events, response, d, selection);
    assert(request_of(s, key, ids, events, response, selection) == r);
    let used = subscription_id_used(s);
    match subscribe_path(s, key, selection) {
        Ok(SubscribePath::First { endpoint: at }) | Ok(SubscribePath::Reuse { endpoint: at }) => {
            lemma_begun(used, r, at, false, 0, Transport::Udp, now);
            let t = after_subscription(used, r, at, false, 0, Transport::Udp, now);
            lemma_begun_before(s, used, t, r, at);
            assert(at == (SocketAddr { ip, port: at.port }));
            if any_subscription(s, key) {
                assert(shareable(s, key, at.port));
            }
            assert(begun(s, t, r, SocketAddr { ip, port: at.port }, false, 0, Transport::Udp));
        },
        Ok(SubscribePath::Bind { .. }) => {},
        Ok(SubscribePath::Connect { .. }) => {},
        Err(_) => {},
    }
}

proof fn lemma_awaited_alike(s: StateView, t: StateView, key: ServiceKey, g: u16)
    requires
        t.pending_subscriptions == s.pending_subscriptions,
    ensures
        answer_awaited(t, key, g) == answer_awaited(s, key, g),
{
    let wanted = PendingSubscriptionKey {
        service_id: key.service_id,
        instance_id: key.instance_id,
        major_version: key.major_version,
        eventgroup_id: g,
    };
    let rows = s.pending_subscriptions;
    if answer_awaited(s, key, g) {
        let i = choose|i: int| 0 <= i < rows.len() && (#[trigger] rows[i]).0 == wanted;
        assert(t.pending_subscriptions[i].0 == wanted);
    }
    if answer_awaited(t, key, g) {
        let i = choose|i: int|
            0 <= i < t.pending_subscriptions.len() && (#[trigger] t.pending_subscriptions[i]).0
                == wanted;
        assert(s.pending_subscriptions[i].0 == wanted);
    }
}

proof fn lemma_begun_before(
    s: StateView,
    used: StateView,
    t: StateView,
    r: RequestView,
    at: SocketAddr,
)
    requires
        used == subscription_id_used(s),
        begun(used, t, r, at, false, 0, Transport::Udp),
    ensures
        begun(s, t, r, at, false, 0, Transport::Udp),
{
    assert(used.pending_subscriptions == s.pending_subscriptions);
    assert forall|g: u16| answer_awaited(used, r.key, g) == #[trigger] answer_awaited(
        s,
        r.key,
        g,
    ) by {
        lemma_awaited_alike(s, used, r.key, g);
    }
    if asks_for_rest(t.pending_unicast_sd.last(), used, r, at, Transport::Udp) {
        assert(asks_for_rest(t.pending_unicast_sd.last(), s, r, at, Transport::Udp));
    }
    let ids = r.eventgroup_ids;
    if exists|i: int| 0 <= i < ids.len() && !answer_awaited(s, r.key, #[trigger] ids[i]) {
        let i = choose|i: int| 0 <= i < ids.len() && !answer_awaited(s, r.key, #[trigger] ids[i]);
        assert(!answer_awaited(used, r.key, ids[i]));
    }
    if exists|i: int| 0 <= i < ids.len() && !answer_awaited(used, r.key, #[trigger] ids[i]) {
        let i = choose|i: int|
            0 <= i < ids.len() && !answer_awaited(used, r.key, #[trigger] ids[i]);
        assert(!answer_awaited(s, r.key, ids[i]));
    }
}

/// A subscription fails at once, and its handle hears why: without eventgroups, of a service that
/// is not known, of one without an endpoint, or over UDP where this host cannot be reached. But
/// for the identifier that it used, nothing changes.
pub proof fn a_subscription_can_fail_at_once(
    l: LoopView,
    service_id: ServiceId,
    instance_id: InstanceId,
    major_version: u8,
    eventgroup_ids: Vec<u16>,
    events: ChannelId,
    response: ChannelId,
    selection: Option<TransportSelection>,
    now: u64,
    reply: ChannelId,
)
    ensures
        ({
            let command = Command::Subscribe {
                service_id,
                instance_id,
                major_version,
                eventgroup_ids,
                events,
                response,
                selection,
            };
            let (after, effects) = reaction(l, LoopEvent::Command { command }, now, reply);
            let s = l.state;
            let t = after.state;
            let key = instance_key(service_id, instance_id, major_version);
            let told = |e: ErrorView|
                effects == seq![
                    EffectView::Deliver {
                        to: response,
                        message: DeliveryView::Subscribed(Err(e)),
                    },
                ] && t == (StateView { next_subscription_id: t.next_subscription_id, ..s });
            let d = lookup(s.discovered, key)->0;
            let over_udp = match selection {
                Some(x) => x.transport == Transport::Udp,
                None => d.udp_endpoint is Some && (d.tcp_endpoint is None || s.config.preferred()
                    == Transport::Udp),
            };
            let nowhere = s.config.advertised_ip is None && !names_host(s.local_endpoint)
                && !names_host(s.client_rpc_endpoint);
            if eventgroup_ids@.len() == 0 {
                told(ErrorView::Config("At least one eventgroup must be specified"@))
            } else if !has_key(s.discovered, key) {
                told(ErrorView::ServiceUnavailable)
            } else if selection is None && d.udp_endpoint is None && d.tcp_endpoint is None {
                told(ErrorView::Config("Server offers no compatible transport endpoints"@))
            } else if over_udp && nowhere {
                told(ErrorView::Config("No advertised IP configured for subscriptions"@))
            } else {
                !(effects.len() > 0 && effects[0] is Deliver)
            }
        }),
{
    let s = l.state;
    let key = instance_key(service_id, instance_id, major_version);
    lemma_subscribe_reaction(
        l,
        service_id,
        instance_id,
        major_version,
        eventgroup_ids,
        events,
        response,
        selection,
        now,
        reply,
    );
    let refusal = subscribe_refusal(s, key, eventgroup_ids@, selection);
    crate::runtime::subscription_laws::a_refused_attempt_leaves_nothing(
        s,
        key,
        eventgroup_ids@,
        events,
        response,
        selection,
        now,
    );
}

proof fn lemma_connected(
    l: LoopView,
    request: SubscribeRequest,
    conn_key: u64,
    ip: IpAddr,
    opened: Result<SocketAddr, IoError>,
    now: u64,
    reply: ChannelId,
)
    ensures
        reaction(l, LoopEvent::Connected { request, conn_key, opened }, now, reply) == l.with(
            carried_out(connection_handled(l.state, request@, conn_key, opened, now)),
        ),
        reaction(l, LoopEvent::Bound { request, ip, opened }, now, reply) == l.with(
            carried_out(binding_handled(l.state, request@, ip, opened, now)),
        ),
{
}

/// Once its connection is there, a subscription over TCP begins at the connection's local address
/// and slot; its server is asked over TCP.
pub proof fn a_connection_begins_its_subscription(
    l: LoopView,
    request: SubscribeRequest,
    conn_key: u64,
    local: SocketAddr,
    now: u64,
    reply: ChannelId,
)
    requires
        request@.eventgroup_ids.len() <= 0x100_0000,
    ensures
        ({
            let event = LoopEvent::Connected { request, conn_key, opened: Ok(local) };
            let (after, effects) = reaction(l, event, now, reply);
            &&& effects.len() == 0
            &&& begun(l.state, after.state, request@, local, false, conn_key, Transport::Tcp)
        }),
{
    let r = request@;
    let opened: Result<SocketAddr, IoError> = Ok(local);
    lemma_connected(l, request, conn_key, local.ip, opened, now, reply);
    lemma_begun(l.state, r, local, false, conn_key, Transport::Tcp, now);
    let t = after_subscription(l.state, r, local, false, conn_key, Transport::Tcp, now);
    lemma_one_executed(
        t,
        ActionView::Deliver { to: 0, message: DeliveryView::HasSubscribers(true) },
    );
}

/// Once its socket is there, a subscription over UDP begins at the socket's port, which is its
/// own; its server is asked over UDP.
pub proof fn a_socket_begins_its_subscription(
    l: LoopView,
    request: SubscribeRequest,
    ip: IpAddr,
    local: SocketAddr,
    now: u64,
    reply: ChannelId,
)
    requires
        request@.eventgroup_ids.len() <= 0x100_0000,
    ensures
        ({
            let event = LoopEvent::Bound { request, ip, opened: Ok(local) };
            let (after, effects) = reaction(l, event, now, reply);
            let at = SocketAddr { ip, port: local.port };
            &&& effects.len() == 0
            &&& begun(l.state, after.state, request@, at, true, 0, Transport::Udp)
        }),
{
    let r = request@;
    let at = SocketAddr { ip, port: local.port };
    let opened: Result<SocketAddr, IoError> = Ok(local);
    lemma_connected(l, request, 0, ip, opened, now, reply);
    lemma_begun(l.state, r, at, true, 0, Transport::Udp, now);
    let t = after_subscription(l.state, r, at, true, 0, Transport::Udp, now);
    lemma_one_executed(
        t,
        ActionView::Deliver { to: 0, message: DeliveryView::HasSubscribers(true) },
    );
}

/// A subscription whose connection or socket cannot be opened fails: its handle hears why, and
/// nothing changes.
pub proof fn without_connection_or_socket_a_subscription_fails(
    l: LoopView,
    request: SubscribeRequest,
    conn_key: u64,
    ip: IpAddr,
    error: IoError,
    now: u64,
    reply: ChannelId,
)
    ensures
        ({
            let told = (
                l,
                seq![
                    EffectView::Deliver {
                        to: request@.response,
                        message: DeliveryView::Subscribed(
                            Err(ErrorView::Io(error.kind, error.message@)),
                        ),
                    },
                ],
            );
            let opened = Err(error);
            &&& reaction(l, LoopEvent::Connected { request, conn_key, opened }, now, reply) == told
            &&& reaction(l, LoopEvent::Bound { request, ip, opened }, now, reply) == told
        }),
{
    let opened: Result<SocketAddr, IoError> = Err(error);
    lemma_connected(l, request, conn_key, ip, opened, now, reply);
    lemma_one_executed(
        l.state,
        ActionView::Deliver {
            to: request@.response,
            message: DeliveryView::Subscribed(Err(ErrorView::Io(error.kind, error.message@))),
        },
    );
}

} // verus!
