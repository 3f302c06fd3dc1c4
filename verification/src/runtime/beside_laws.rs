//! What holds of subscriptions whose connections are opened beside the event loop.

use crate::config::Transport;
use crate::discovery::SdMessageView;
use crate::error::ErrorView;
use crate::message::{ChannelId, DeliveryView};
use crate::net::{IpAddr, SocketAddr};
use crate::runtime::action::ActionView;
use crate::runtime::asking_laws::{answer_awaited, lemma_rest, parts};
use crate::runtime::client_concurrent::{
    after_update, concurrent_step, prepared_update, ConcurrentView, ConnectView, ServiceSnapshot,
    StateUpdateView, SubscribeStateUpdate, UpdateView,
};
use crate::runtime::event_loop::{carried_out, reaction, update_handled, LoopEvent, LoopView};
use crate::runtime::execute::EffectView;
use crate::runtime::reading::{lemma_one_executed, message_in};
use crate::runtime::state::{EndpointUse, ServiceKey, StateView};
use crate::runtime::subscribe::{lemma_smallest_unused, not_yet_awaited, RequestView};
use crate::runtime::subscribing_laws::{entry_asks, lemma_subscribe_says};
use vstd::prelude::*;

verus! {

/// A message asks for all eventgroups of a subscription, each once and in order, at one endpoint,
/// and can be read.
pub open spec fn asks_for_all(
    m: SdMessageView,
    r: RequestView,
    at: SocketAddr,
    transport: Transport,
) -> bool {
    &&& m.entries.len() == r.eventgroup_ids.len()
    &&& forall|j: int|
        0 <= j < m.entries.len() ==> entry_asks(
            m,
            #[trigger] m.entries[j],
            r.key,
            r.eventgroup_ids[j],
            r.ttl,
            at,
            transport,
        )
    &&& r.ttl <= 0xFF_FFFF ==> forall|session: u16| #[trigger]
        message_in(m.bytes(session)) == Some(m)
}

/// What a subscription beside the event loop asks for: of the host that offers the service, and
/// for the longer of the configured lifetime and the offer's.
pub open spec fn asked_beside(
    key: ServiceKey,
    eventgroup_ids: Seq<u16>,
    events: ChannelId,
    response: ChannelId,
    d: ServiceSnapshot,
    subscription_id: u64,
    subscribe_ttl: u32,
) -> RequestView {
    RequestView {
        key,
        eventgroup_ids,
        events,
        response,
        subscription_id,
        sd_endpoint: d.sd_endpoint,
        ttl: if subscribe_ttl >= d.offer_ttl {
            subscribe_ttl
        } else {
            d.offer_ttl
        },
        chosen: None,
    }
}

/// With an endpoint, a subscription is prepared to be applied: it keeps what it asks for, and its
/// message asks for all eventgroups at that endpoint.
pub proof fn a_subscription_is_prepared(
    r: RequestView,
    at: SocketAddr,
    conn_key: u64,
    transport: Transport,
    flags: u8,
)
    requires
        r.eventgroup_ids.len() <= 0x100_0000,
    ensures
        ({
            let u = prepared_update(r, at, conn_key, transport, flags);
            &&& u.request == r
            &&& u.endpoint == at
            &&& u.conn_key == conn_key
            &&& u.transport == transport
            &&& u.message.flags == flags
            &&& asks_for_all(u.message, r, at, transport)
        }),
{
    lemma_subscribe_says(r.key, r.eventgroup_ids, at, flags, r.ttl, transport);
}

/// A subscription beside the event loop goes the way of the endpoint with which the service is
/// used. Over TCP it first needs a connection to the service, in the first slot that is free; over
/// UDP it is prepared at once, at the request port of this host. Without eventgroups, service,
/// endpoint or address it fails.
pub proof fn a_subscription_beside_the_loop_goes_its_way(
    key: ServiceKey,
    eventgroup_ids: Seq<u16>,
    events: ChannelId,
    response: ChannelId,
    discovered: Option<ServiceSnapshot>,
    subscription_id: u64,
    client_rpc_endpoint: SocketAddr,
    advertised_ip: Option<IpAddr>,
    sd_flags: u8,
    subscribe_ttl: u32,
    used_conn_keys: Set<u64>,
    slot: u64,
)
    requires
        eventgroup_ids.len() <= 0x100_0000,
        !used_conn_keys.contains(slot),
        forall|smaller: u64| smaller < slot ==> used_conn_keys.contains(smaller),
    ensures
        ({
            let step = concurrent_step(
                key,
                eventgroup_ids,
                events,
                response,
                discovered,
                subscription_id,
                client_rpc_endpoint,
                advertised_ip,
                sd_flags,
                subscribe_ttl,
                used_conn_keys,
            );
            let failure = |error: ErrorView|
                step == ConcurrentView::Finished(StateUpdateView::Failed { response, error });
            if eventgroup_ids.len() == 0 {
                failure(ErrorView::Config("At least one eventgroup must be specified"@))
            } else {
                match discovered {
                    None => failure(ErrorView::ServiceUnavailable),
                    Some(d) => {
                        let r = asked_beside(
                            key,
                            eventgroup_ids,
                            events,
                            response,
                            d,
                            subscription_id,
                            subscribe_ttl,
                        );
                        match (d.method_endpoint, d.tcp_endpoint, advertised_ip) {
                            (None, _, _) => failure(
                                ErrorView::Config(
                                    "Server offers no compatible transport endpoints"@,
                                ),
                            ),
                            (Some((_, Transport::Tcp)), Some(endpoint), _) => step
                                == ConcurrentView::Connect(
                                ConnectView { request: r, endpoint, conn_key: slot, sd_flags },
                            ),
                            (Some((_, Transport::Tcp)), None, _) => failure(
                                ErrorView::Config("TCP transport selected but no TCP endpoint"@),
                            ),
                            (Some((_, Transport::Udp)), _, Some(ip)) => {
                                let at = SocketAddr { ip, port: client_rpc_endpoint.port };
                                &&& step matches ConcurrentView::Finished(
                                    StateUpdateView::Success { update },
                                )
                                &&& update.request == r
                                &&& update.endpoint == at
                                &&& update.conn_key == 0
                                &&& update.transport == Transport::Udp
                                &&& update.message.flags == sd_flags
                                &&& asks_for_all(update.message, r, at, Transport::Udp)
                            },
                            (Some((_, Transport::Udp)), _, None) => failure(
                                ErrorView::Config(
                                    "No advertised IP configured for subscriptions"@,
                                ),
                            ),
                        }
                    },
                }
            }
        }),
{
    lemma_smallest_unused(used_conn_keys, slot);
    if let Some(d) = discovered {
        let r = asked_beside(
            key,
            eventgroup_ids,
            events,
            response,
            d,
            subscription_id,
            subscribe_ttl,
        );
        if let Some(ip) = advertised_ip {
            let at = SocketAddr { ip, port: client_rpc_endpoint.port };
            a_subscription_is_prepared(r, at, 0, Transport::Udp, sd_flags);
        }
    }
}

/// A prepared subscription that is applied begins: its parts are there, its message goes to its
/// server unless an answer is awaited for every eventgroup already, and over TCP its port is in
/// use for the service. One that has failed lets its handle hear why, and changes nothing.
pub proof fn a_prepared_subscription_begins(
    l: LoopView,
    update: SubscribeStateUpdate,
    now: u64,
    reply: ChannelId,
)
    ensures
        ({
            let (after, effects) = reaction(l, LoopEvent::Subscribed { update }, now, reply);
            let s = l.state;
            let t = after.state;
            match update@ {
                StateUpdateView::Failed { response, error } => {
                    &&& after == l
                    &&& effects == seq![
                        EffectView::Deliver {
                            to: response,
                            message: DeliveryView::Subscribed(Err(error)),
                        },
                    ]
                },
                StateUpdateView::Success { update: u } => {
                    let r = u.request;
                    let used = EndpointUse {
                        port: u.endpoint.port,
                        service_id: r.key.service_id,
                        instance_id: r.key.instance_id,
                    };
                    let rest = exists|i: int|
                        0 <= i < r.eventgroup_ids.len() && !answer_awaited(
                            s,
                            r.key,
                            #[trigger] r.eventgroup_ids[i],
                        );
                    &&& effects.len() == 0
                    &&& t.subscriptions == s.subscriptions + parts(r, u.endpoint, false, u.conn_key)
                    &&& t.pending_unicast_sd == (if rest {
                        s.pending_unicast_sd.push(
                            ActionView::SendSd { message: u.message, target: r.sd_endpoint },
                        )
                    } else {
                        s.pending_unicast_sd
                    })
                    &&& u.transport == Transport::Tcp ==> t.subscription_endpoint_usage.contains(
                        used,
                    )
                    &&& u.transport == Transport::Udp ==> t.subscription_endpoint_usage
                        == s.subscription_endpoint_usage
                    &&& t.discovered == s.discovered
                    &&& t.offered == s.offered
                    &&& t.server_subscribers == s.server_subscribers
                },
            }
        }),
{
    let s = l.state;
    lemma_applied(l, update, now, reply);
    match update@ {
        StateUpdateView::Failed { response, error } => {
            lemma_one_executed(
                s,
                ActionView::Deliver { to: response, message: DeliveryView::Subscribed(Err(error)) },
            );
        },
        StateUpdateView::Success { update: u } => {
            lemma_after_update(s, u, now);
            let t = after_update(s, u, now);
            lemma_one_executed(
                t,
                ActionView::Deliver { to: 0, message: DeliveryView::HasSubscribers(true) },
            );
        },
    }
}

proof fn lemma_applied(l: LoopView, update: SubscribeStateUpdate, now: u64, reply: ChannelId)
    ensures
        reaction(l, LoopEvent::Subscribed { update }, now, reply) == l.with(
            carried_out(update_handled(l.state, update@, now)),
        ),
{
}

proof fn lemma_after_update(s: StateView, u: UpdateView, now: u64)
    ensures
        ({
            let t = after_update(s, u, now);
            let r = u.request;
            let used = EndpointUse {
                port: u.endpoint.port,
                service_id: r.key.service_id,
                instance_id: r.key.instance_id,
            };
            let rest = exists|i: int|
                0 <= i < r.eventgroup_ids.len() && !answer_awaited(
                    s,
                    r.key,
                    #[trigger] r.eventgroup_ids[i],
                );
            &&& t.subscriptions == s.subscriptions + parts(r, u.endpoint, false, u.conn_key)
            &&& t.pending_unicast_sd == (if rest {
                s.pending_unicast_sd.push(
                    ActionView::SendSd { message: u.message, target: r.sd_endpoint },
                )
            } else {
                s.pending_unicast_sd
            })
            &&& u.transport == Transport::Tcp ==> t.subscription_endpoint_usage.contains(used)
            &&& u.transport == Transport::Udp ==> t.subscription_endpoint_usage
                == s.subscription_endpoint_usage
            &&& t.discovered == s.discovered
            &&& t.offered == s.offered
            &&& t.server_subscribers == s.server_subscribers
        }),
{
    let t = after_update(s, u, now);
    let r = u.request;
    let ids = r.eventgroup_ids;
    let n = ids.len() as int;
    let fresh = not_yet_awaited(s.pending_subscriptions, r, n);
    lemma_rest(s, r, n);
    assert(ids.take(n) =~= ids);
    assert(t.subscriptions =~= s.subscriptions + parts(r, u.endpoint, false, u.conn_key));
    if fresh.len() > 0 {
        assert(fresh.contains(fresh[0]));
        let i = choose|i: int| 0 <= i < ids.len() && ids[i] == fresh[0];
        assert(!answer_awaited(s, r.key, ids[i]));
    } else {
        assert forall|i: int| 0 <= i < ids.len() implies answer_awaited(
            s,
            r.key,
            #[trigger] ids[i],
        ) by {
            assert(ids.contains(ids[i]));
            if !answer_awaited(s, r.key, ids[i]) {
                assert(fresh.contains(ids[i]));
            }
        }
    }
    let usage = s.subscription_endpoint_usage;
    let used = EndpointUse {
        port: u.endpoint.port,
        service_id: r.key.service_id,
        instance_id: r.key.instance_id,
    };
    let more = usage.push(used);
    assert(more[usage.len() as int] == used);
}

} // verus!
