//! Subscribing to the eventgroups of other hosts.
//!
//! A subscription may need a TCP connection or a socket of its own. Opening either takes
//! time, so that subscribing has two steps: the first decides what is needed, the second
//! goes on with what was opened.

use crate::config::{PortSpec, Transport, TransportSelection};
use crate::error::{ConfigError, Error, ErrorView, IoError};
use crate::ids::{InstanceId, ServiceId};
use crate::message::{outcome, ChannelId, Delivery, DeliveryView};
use crate::net::{IpAddr, SocketAddr};
use crate::runtime::action::{push, views, Action, ActionView};
use crate::runtime::client::get_endpoint_ip;
use crate::runtime::sd::{build_subscribe_message_multi, subscribe_message};
use crate::runtime::sd_client::{
    lemma_multi_views, longer_ttl, multi_view, reachable_ip, subscription_ttl, to_service, PendingRow,
};
use crate::runtime::state::{
    ClientSubscription, DiscoveredService, MultiEventgroupSubscription, MultiEventgroupSubscriptionKey, MultiView,
    PendingSubscription, PendingSubscriptionKey, RuntimeState, ServiceKey, StateView,
};
use crate::table::{lookup, put};
use std::collections::HashSet;
use vstd::prelude::*;
use vstd::std_specs::iter::IteratorSpec;

verus! {

broadcast use vstd::std_specs::hash::group_hash_axioms;

/// The smallest number that is not in use.
pub open spec fn smallest_unused(used: Set<u64>) -> u64 {
    choose|slot: u64|
        !(#[trigger] used.contains(slot)) && forall|j: u64| j < slot ==> #[trigger] used.contains(j)
}

/// A number that is not in use, while all smaller ones are, is the smallest.
pub proof fn lemma_smallest_unused(used: Set<u64>, slot: u64)
    requires
        !used.contains(slot),
        forall|j: u64| j < slot ==> used.contains(j),
    ensures
        smallest_unused(used) == slot,
{
    let r = smallest_unused(used);
    assert(!used.contains(r) && forall|j: u64| j < r ==> used.contains(j));
}

/// A set that holds every number below `n` has at least `n` elements.
proof fn lemma_initial_segment(used: Set<u64>, n: nat)
    requires
        used.finite(),
        n <= u64::MAX + 1,
        forall|j: u64| j < n ==> used.contains(j),
    ensures
        used.len() >= n,
    decreases n,
{
    if n > 0 {
        let last = (n - 1) as u64;
        let rest = used.remove(last);
        assert forall|j: u64| j < n - 1 implies rest.contains(j) by {
            assert(used.contains(j));
        }
        assert(used.contains(last));
        lemma_initial_segment(rest, (n - 1) as nat);
    }
}

/// What a hash set holds is finite.
proof fn lemma_hash_set_finite(used: &HashSet<u64>)
    ensures
        used@.finite(),
{
    let elements = vstd::std_specs::hash::spec_hash_keys_iter(used).remaining().unref();
    assert(elements.to_set() == used@);
    vstd::seq_lib::seq_to_set_is_finite(elements);
}

/// The smallest connection slot that is not in use.
pub fn smallest_unused_slot(used: &HashSet<u64>) -> (r: u64)
    ensures
        r == smallest_unused(used@),
{
    let mut slot: u64 = 0;
    let count: usize = used.len();
    proof {
        lemma_hash_set_finite(used);
    }
    while used.contains(&slot)
        invariant
            count == used@.len(),
            used@.finite(),
            forall|j: u64| j < slot ==> used@.contains(j),
        decreases u64::MAX - slot,
    {
        proof {
            assert forall|j: u64| j < slot + 1 implies used@.contains(j) by {}
            lemma_initial_segment(used@, (slot + 1) as nat);
        }
        slot += 1;
    }
    proof {
        lemma_smallest_unused(used@, slot);
    }
    slot
}

/// The connection slots that the subscriptions to a service use.
pub open spec fn slots_in_use(subs: Seq<ClientSubscription>, key: ServiceKey) -> Set<u64> {
    Set::new(
        |slot: u64|
            exists|i: int|
                0 <= i < subs.len() && (#[trigger] subs[i]).service == key && subs[i].tcp_conn_key
                    == slot,
    )
}

/// A service always has a free slot, and the one that its next subscription gets is free
/// while all smaller ones are in use.
pub proof fn next_slot_is_free(subs: Seq<ClientSubscription>, key: ServiceKey)
    requires
        subs.len() <= u64::MAX,
    ensures
        !slots_in_use(subs, key).contains(smallest_unused(slots_in_use(subs, key))),
        forall|j: u64|
            j < smallest_unused(slots_in_use(subs, key)) ==> slots_in_use(subs, key).contains(j),
        smallest_unused(slots_in_use(subs, key)) <= subs.len(),
{
    let used = slots_in_use(subs, key);
    lemma_slots_finite(subs, key);
    lemma_free_slot_exists(used, subs.len(), 0);
}

/// There are at most as many slots in use as subscriptions.
proof fn lemma_slots_finite(subs: Seq<ClientSubscription>, key: ServiceKey)
    ensures
        slots_in_use(subs, key).finite(),
        slots_in_use(subs, key).len() <= subs.len(),
    decreases subs.len(),
{
    let used = slots_in_use(subs, key);
    if subs.len() == 0 {
        assert(used =~= Set::empty());
    } else {
        let t = subs.drop_last();
        lemma_slots_finite(t, key);
        let before = slots_in_use(t, key);
        let last = subs.last();
        assert forall|slot: u64| #[trigger] used.contains(slot) == (before.contains(slot) || (
        last.service == key && last.tcp_conn_key == slot)) by {
            if used.contains(slot) {
                let i = choose|i: int|
                    0 <= i < subs.len() && (#[trigger] subs[i]).service == key
                        && subs[i].tcp_conn_key == slot;
                if i < t.len() {
                    assert(t[i] == subs[i]);
                }
            }
            if before.contains(slot) {
                let i = choose|i: int|
                    0 <= i < t.len() && (#[trigger] t[i]).service == key && t[i].tcp_conn_key
                        == slot;
                assert(subs[i] == t[i]);
            }
            assert(subs[subs.len() - 1] == last);
        }
        if last.service == key {
            assert(used =~= before.insert(last.tcp_conn_key));
        } else {
            assert(used =~= before);
        }
    }
}

/// A set of at most `n` elements lacks some number up to `n`.
proof fn lemma_free_slot_exists(used: Set<u64>, n: nat, from: nat)
    requires
        used.finite(),
        used.len() <= n <= u64::MAX,
        from <= n,
        forall|j: u64| j < from ==> used.contains(j),
    ensures
        !used.contains(smallest_unused(used)),
        forall|j: u64| j < smallest_unused(used) ==> used.contains(j),
        smallest_unused(used) <= n,
    decreases n - from,
{
    if !used.contains(from as u64) {
        lemma_smallest_unused(used, from as u64);
    } else {
        assert forall|j: u64| j < from + 1 implies used.contains(j) by {}
        lemma_initial_segment(used, from + 1);
        lemma_free_slot_exists(used, n, from + 1);
    }
}

fn next_slot(subs: &Vec<ClientSubscription>, key: ServiceKey) -> (r: u64)
    ensures
        r == smallest_unused(slots_in_use(subs@, key)),
{
    let mut used: HashSet<u64> = HashSet::new();
    let mut i: usize = 0;
    while i < subs.len()
        invariant
            0 <= i <= subs@.len(),
            forall|slot: u64| #[trigger]
                used@.contains(slot) <==> exists|j: int|
                    0 <= j < i && (#[trigger] subs@[j]).service == key && subs@[j].tcp_conn_key
                        == slot,
        decreases subs@.len() - i,
    {
        let ghost before = used@;
        if subs[i].service == key {
            used.insert(subs[i].tcp_conn_key);
        }
        proof {
            assert forall|slot: u64| #[trigger] used@.contains(slot) <==> exists|j: int|
                0 <= j < i + 1 && (#[trigger] subs@[j]).service == key && subs@[j].tcp_conn_key
                    == slot by {
                if used@.contains(slot) && !before.contains(slot) {
                    assert(subs@[i as int].tcp_conn_key == slot);
                }
                if before.contains(slot) {
                    let j = choose|j: int|
                        0 <= j < i && (#[trigger] subs@[j]).service == key
                            && subs@[j].tcp_conn_key == slot;
                    assert(subs@[j].tcp_conn_key == slot);
                }
            }
        }
        i += 1;
    }
    assert(used@ =~= slots_in_use(subs@, key));
    smallest_unused_slot(&used)
}

/// How a subscription receives its events.
#[derive(Clone, Copy, PartialEq, Eq, Structural, Debug)]
pub enum SubscribePath {
    /// On a TCP connection that has to be there first.
    Connect {
        /// The server.
        endpoint: SocketAddr,
        /// The connection's slot.
        conn_key: u64,
        /// The local port.
        local_port: PortSpec,
    },
    /// On the request port, as the first subscription to the service.
    First {
        /// The local endpoint.
        endpoint: SocketAddr,
    },
    /// On a port that other services use already.
    Reuse {
        /// The local endpoint.
        endpoint: SocketAddr,
    },
    /// On a socket of its own, which has to be opened first.
    Bind {
        /// The local address.
        ip: IpAddr,
        /// The local port.
        local_port: PortSpec,
    },
}

/// The endpoint, transport and local port to use: those that were selected, or else the
/// endpoint with which the service is used, from any port.
pub open spec fn endpoint_to_use(
    d: DiscoveredService,
    selection: Option<TransportSelection>,
    prefer_tcp: bool,
) -> Option<(SocketAddr, Transport, PortSpec)> {
    match selection {
        Some(x) => Some((x.remote_endpoint, x.transport, x.local_port)),
        None => match d.endpoint(prefer_tcp) {
            Some((endpoint, transport)) => Some((endpoint, transport, PortSpec::Any)),
            None => None,
        },
    }
}

/// Some subscription to the service exists.
pub open spec fn is_subscribed(subs: Seq<ClientSubscription>, key: ServiceKey) -> bool {
    exists|i: int| 0 <= i < subs.len() && (#[trigger] subs[i]).service == key
}

/// How a subscription receives its events, or why there is none. Over UDP from any port, the
/// first subscription to a service shares the request port, and a further one a port that only
/// other services use; a fixed port is a socket of its own.
pub open spec fn subscribe_path(
    s: StateView,
    key: ServiceKey,
    selection: Option<TransportSelection>,
) -> Result<SubscribePath, ErrorView> {
    match lookup(s.discovered, key) {
        None => Err(ErrorView::ServiceUnavailable),
        Some(d) => match endpoint_to_use(d, selection, s.config.preferred() == Transport::Tcp) {
            None => Err(
                ErrorView::Config("Server offers no compatible transport endpoints"@),
            ),
            Some((endpoint, Transport::Tcp, local_port)) => Ok(
                SubscribePath::Connect {
                    endpoint,
                    conn_key: smallest_unused(slots_in_use(s.subscriptions, key)),
                    local_port,
                },
            ),
            Some((_, Transport::Udp, local_port)) => match reachable_ip(s) {
                None => Err(ErrorView::Config("No advertised IP configured for subscriptions"@)),
                Some(ip) => if local_port is Fixed {
                    Ok(SubscribePath::Bind { ip, local_port })
                } else if !is_subscribed(s.subscriptions, key) {
                    Ok(
                        SubscribePath::First {
                            endpoint: SocketAddr { ip, port: s.client_rpc_endpoint.port },
                        },
                    )
                } else {
                    match s.reusable_port(key.service_id, key.instance_id) {
                        Some(port) => Ok(
                            SubscribePath::Reuse { endpoint: SocketAddr { ip, port } },
                        ),
                        None => Ok(SubscribePath::Bind { ip, local_port }),
                    }
                },
            },
        },
    }
}

fn choose_endpoint_to_use(
    d: &DiscoveredService,
    selection: Option<TransportSelection>,
    prefer_tcp: bool,
) -> (r: Option<(SocketAddr, Transport, PortSpec)>)
    ensures
        r == endpoint_to_use(*d, selection, prefer_tcp),
{
    match selection {
        Some(x) => Some((x.remote_endpoint, x.transport, x.local_port)),
        None => match d.method_endpoint(prefer_tcp) {
            Some((endpoint, transport)) => Some((endpoint, transport, PortSpec::Any)),
            None => None,
        },
    }
}

fn find_path(
    state: &RuntimeState,
    key: ServiceKey,
    selection: Option<TransportSelection>,
) -> (r: Result<SubscribePath, Error>)
    requires
        state@.wf(),
    ensures
        outcome(r) == subscribe_path(state@, key, selection),
{
    let discovered = match state.discovered.get(&key) {
        Some(discovered) => discovered,
        None => {
            return Err(Error::ServiceUnavailable);
        },
    };
    let prefer_tcp: bool = state.config.preferred_transport() == Transport::Tcp;
    match choose_endpoint_to_use(discovered, selection, prefer_tcp) {
        None => Err(
            Error::Config(ConfigError::new("Server offers no compatible transport endpoints")),
        ),
        Some((endpoint, Transport::Tcp, local_port)) => {
            let conn_key: u64 = next_slot(&state.subscriptions, key);
            Ok(SubscribePath::Connect { endpoint, conn_key, local_port })
        },
        Some((_, Transport::Udp, local_port)) => {
            let ip = match get_endpoint_ip(state) {
                Some(ip) => ip,
                None => {
                    return Err(
                        Error::Config(
                            ConfigError::new("No advertised IP configured for subscriptions"),
                        ),
                    );
                },
            };
            if let PortSpec::Fixed(_) = local_port {
                return Ok(SubscribePath::Bind { ip, local_port });
            }
            let of_service = |c: ClientSubscription| -> (b: bool)
                ensures
                    b == (c.service == key),
                { c.service == key };
            let subscribed: bool = crate::rows::any(
                &state.subscriptions,
                of_service,
                Ghost(to_service(key)),
            );
            if !subscribed {
                let port: u16 = state.client_rpc_endpoint.port;
                return Ok(SubscribePath::First { endpoint: SocketAddr::new(ip, port) });
            }
            match state.find_reusable_subscription_endpoint(key.service_id, key.instance_id) {
                Some(port) => Ok(SubscribePath::Reuse { endpoint: SocketAddr::new(ip, port) }),
                None => Ok(SubscribePath::Bind { ip, local_port }),
            }
        },
    }
}

/// A subscription that is under way.
pub struct SubscribeRequest {
    /// The service.
    pub key: ServiceKey,
    /// The eventgroups.
    pub eventgroup_ids: Vec<u16>,
    /// Where events go.
    pub events: ChannelId,
    /// Where the outcome goes.
    pub response: ChannelId,
    /// The subscription.
    pub subscription_id: u64,
    /// The server's discovery endpoint.
    pub sd_endpoint: SocketAddr,
    /// The lifetime, in seconds.
    pub ttl: u32,
    /// The transport that was asked for, where one was.
    pub chosen: Option<Transport>,
}

/// What a [`SubscribeRequest`] says.
pub struct RequestView {
    /// The service.
    pub key: ServiceKey,
    /// The eventgroups.
    pub eventgroup_ids: Seq<u16>,
    /// Where events go.
    pub events: ChannelId,
    /// Where the outcome goes.
    pub response: ChannelId,
    /// The subscription.
    pub subscription_id: u64,
    /// The server's discovery endpoint.
    pub sd_endpoint: SocketAddr,
    /// The lifetime, in seconds.
    pub ttl: u32,
    /// The transport that was asked for, where one was.
    pub chosen: Option<Transport>,
}

impl View for SubscribeRequest {
    type V = RequestView;

    open spec fn view(&self) -> RequestView {
        RequestView {
            key: self.key,
            eventgroup_ids: self.eventgroup_ids@,
            events: self.events,
            response: self.response,
            subscription_id: self.subscription_id,
            sd_endpoint: self.sd_endpoint,
            ttl: self.ttl,
            chosen: self.chosen,
        }
    }
}

/// The pending entry of an eventgroup.
pub open spec fn pending_key_for(key: ServiceKey, eventgroup_id: u16) -> PendingSubscriptionKey {
    PendingSubscriptionKey {
        service_id: key.service_id,
        instance_id: key.instance_id,
        major_version: key.major_version,
        eventgroup_id,
    }
}

/// The entry of a subscription to several eventgroups.
pub open spec fn multi_key_for(r: RequestView) -> MultiEventgroupSubscriptionKey {
    MultiEventgroupSubscriptionKey {
        service_id: r.key.service_id,
        instance_id: r.key.instance_id,
        major_version: r.key.major_version,
        subscription_id: r.subscription_id,
    }
}

/// The subscriptions to single eventgroups that a request makes.
pub open spec fn new_subscriptions(
    r: RequestView,
    endpoint: SocketAddr,
    dedicated: bool,
    conn_key: u64,
) -> Seq<ClientSubscription> {
    r.eventgroup_ids.map_values(
        |g: u16|
            ClientSubscription {
                service: r.key,
                subscription_id: r.subscription_id,
                eventgroup_id: g,
                events_tx: r.events,
                local_endpoint: endpoint,
                has_dedicated_socket: dedicated,
                tcp_conn_key: conn_key,
                chosen: r.chosen,
            },
    )
}

/// The answers that a request awaits. Where no tracker decides for all eventgroups
/// together, the first one decides.
pub open spec fn new_pending(r: RequestView, together: bool) -> Seq<PendingRow> {
    Seq::new(
        r.eventgroup_ids.len(),
        |i: int|
            (
                pending_key_for(r.key, r.eventgroup_ids[i]),
                PendingSubscription {
                    subscription_id: r.subscription_id,
                    response: if i == 0 && !together {
                        Some(r.response)
                    } else {
                        None
                    },
                },
            ),
    )
}

/// An answer for the eventgroup is awaited.
pub open spec fn is_awaited(pending: Seq<PendingRow>, key: PendingSubscriptionKey) -> bool {
    exists|i: int| 0 <= i < pending.len() && (#[trigger] pending[i]).0 == key
}

/// The first `n` eventgroups, without those for which an answer is awaited already.
pub open spec fn not_yet_awaited(pending: Seq<PendingRow>, r: RequestView, n: int) -> Seq<u16>
    decreases n,
{
    if n <= 0 {
        Seq::empty()
    } else {
        let before = not_yet_awaited(pending, r, n - 1);
        let g = r.eventgroup_ids[n - 1];
        if is_awaited(pending, pending_key_for(r.key, g)) || r.eventgroup_ids.take(
            n - 1,
        ).contains(g) {
            before
        } else {
            before.push(g)
        }
    }
}

/// The state with a subscription that awaits its answers. One to several eventgroups
/// succeeds when all of them are acknowledged.
pub open spec fn subscription_tracked(
    s: StateView,
    r: RequestView,
    endpoint: SocketAddr,
    dedicated: bool,
    conn_key: u64,
) -> StateView {
    let together = r.eventgroup_ids.len() > 1;
    StateView {
        subscriptions: s.subscriptions + new_subscriptions(r, endpoint, dedicated, conn_key),
        multi: if together {
            put(
                s.multi,
                multi_key_for(r),
                MultiView {
                    eventgroup_ids: r.eventgroup_ids,
                    acked: Set::empty(),
                    response: Some(r.response),
                },
            )
        } else {
            s.multi
        },
        pending_subscriptions: s.pending_subscriptions + new_pending(r, together),
        ..s
    }
}

/// The state after a subscription has an endpoint: it is tracked, and the eventgroups for
/// which no answer was awaited yet are subscribed to, all in one message.
pub open spec fn after_subscription(
    s: StateView,
    r: RequestView,
    endpoint: SocketAddr,
    dedicated: bool,
    conn_key: u64,
    transport: Transport,
    now: u64,
) -> StateView {
    let registered = s.port_registered(endpoint.port, r.key.service_id, r.key.instance_id);
    let t = subscription_tracked(registered, r, endpoint, dedicated, conn_key);
    let fresh = not_yet_awaited(s.pending_subscriptions, r, r.eventgroup_ids.len() as int);
    if fresh.len() > 0 {
        t.queued(
            subscribe_message(
                r.key,
                fresh,
                endpoint.ip,
                endpoint.port,
                s.flags(true),
                r.ttl,
                transport,
            ),
            r.sd_endpoint,
            now,
        )
    } else {
        t
    }
}

fn awaits(pending: &Vec<PendingRow>, key: PendingSubscriptionKey) -> (r: bool)
    ensures
        r == is_awaited(pending@, key),
{
    let for_key = |x: PendingRow| -> (b: bool)
        ensures
            b == (x.0 == key),
        { x.0 == key };
    crate::rows::any(pending, for_key, Ghost(|x: PendingRow| x.0 == key))
}

fn add_subscriptions(
    r: &SubscribeRequest,
    endpoint: SocketAddr,
    dedicated: bool,
    conn_key: u64,
    subs: &mut Vec<ClientSubscription>,
)
    ensures
        final(subs)@ == old(subs)@ + new_subscriptions(r@, endpoint, dedicated, conn_key),
{
    let ghost before = subs@;
    let ghost all = new_subscriptions(r@, endpoint, dedicated, conn_key);
    let mut i: usize = 0;
    assert(before + all.take(0) =~= before);
    while i < r.eventgroup_ids.len()
        invariant
            0 <= i <= r.eventgroup_ids@.len(),
            all == new_subscriptions(r@, endpoint, dedicated, conn_key),
            subs@ == before + all.take(i as int),
        decreases r.eventgroup_ids@.len() - i,
    {
        subs.push(
            ClientSubscription {
                service: r.key,
                subscription_id: r.subscription_id,
                eventgroup_id: r.eventgroup_ids[i],
                events_tx: r.events,
                local_endpoint: endpoint,
                has_dedicated_socket: dedicated,
                tcp_conn_key: conn_key,
                chosen: r.chosen,
            },
        );
        proof {
            crate::rows::lemma_take_step(all, i as int);
            assert(subs@ =~= before + all.take(i + 1));
        }
        i += 1;
    }
    assert(all.take(i as int) =~= all);
}

fn await_answers(r: &SubscribeRequest, together: bool, pending: &mut Vec<PendingRow>) -> (fresh:
    Vec<u16>)
    ensures
        final(pending)@ == old(pending)@ + new_pending(r@, together),
        fresh@ == not_yet_awaited(old(pending)@, r@, r@.eventgroup_ids.len() as int),
{
    let ghost before = pending@;
    let ghost all = new_pending(r@, together);
    let mut fresh: Vec<u16> = Vec::new();
    let mut i: usize = 0;
    assert(before + all.take(0) =~= before);
    while i < r.eventgroup_ids.len()
        invariant
            0 <= i <= r.eventgroup_ids@.len(),
            all == new_pending(r@, together),
            pending@ == before + all.take(i as int),
            fresh@ == not_yet_awaited(before, r@, i as int),
        decreases r.eventgroup_ids@.len() - i,
    {
        let g: u16 = r.eventgroup_ids[i];
        let key = PendingSubscriptionKey {
            service_id: r.key.service_id,
            instance_id: r.key.instance_id,
            major_version: r.key.major_version,
            eventgroup_id: g,
        };
        let first_waiter: bool = !awaits(pending, key);
        proof {
            let ids = r.eventgroup_ids@;
            let now = pending@;
            if is_awaited(now, key) {
                let j = choose|j: int| 0 <= j < now.len() && (#[trigger] now[j]).0 == key;
                if j < before.len() {
                    assert(before[j].0 == key);
                } else {
                    assert(ids.take(i as int)[j - before.len()] == g);
                }
            }
            if is_awaited(before, key) {
                let j = choose|j: int| 0 <= j < before.len() && (#[trigger] before[j]).0 == key;
                assert(now[j].0 == key);
            }
            if ids.take(i as int).contains(g) {
                let j = choose|j: int| 0 <= j < i && ids.take(i as int)[j] == g;
                assert(now[before.len() + j].0 == key);
            }
        }
        let response: Option<ChannelId> = if i == 0 && !together {
            Some(r.response)
        } else {
            None
        };
        pending.push((key, PendingSubscription { subscription_id: r.subscription_id, response }));
        if first_waiter {
            fresh.push(g);
        }
        proof {
            crate::rows::lemma_take_step(all, i as int);
            assert(pending@ =~= before + all.take(i + 1));
        }
        i += 1;
    }
    assert(all.take(i as int) =~= all);
    fresh
}

/// Tracks a subscription; the result are the eventgroups for which no answer was awaited
/// yet.
pub(crate) fn track_subscription(
    r: &SubscribeRequest,
    endpoint: SocketAddr,
    dedicated: bool,
    conn_key: u64,
    state: &mut RuntimeState,
) -> (fresh: Vec<u16>)
    requires
        old(state)@.wf(),
    ensures
        final(state)@ == subscription_tracked(
            old(state)@,
            r@,
            endpoint,
            dedicated,
            conn_key,
        ),
        fresh@ == not_yet_awaited(
            old(state)@.pending_subscriptions,
            r@,
            r@.eventgroup_ids.len() as int,
        ),
        final(state)@.wf(),
{
    let ghost s = state@;
    add_subscriptions(r, endpoint, dedicated, conn_key, &mut state.subscriptions);
    let together: bool = r.eventgroup_ids.len() > 1;
    let ghost t = state.multi_eventgroup_subscriptions@;
    proof {
        lemma_multi_views(t);
        crate::table::lemma_map_table(t, multi_view());
    }
    if together {
        let multi_key = MultiEventgroupSubscriptionKey {
            service_id: r.key.service_id,
            instance_id: r.key.instance_id,
            major_version: r.key.major_version,
            subscription_id: r.subscription_id,
        };
        let multi = MultiEventgroupSubscription {
            eventgroup_ids: crate::rows::copy(&r.eventgroup_ids),
            acked_eventgroups: HashSet::new(),
            response: Some(r.response),
        };
        let ghost tracker = MultiView {
            eventgroup_ids: r.eventgroup_ids@,
            acked: Set::empty(),
            response: Some(r.response),
        };
        assert(multi@ == tracker);
        state.multi_eventgroup_subscriptions.insert(multi_key, multi);
        proof {
            lemma_multi_views(state.multi_eventgroup_subscriptions@);
            crate::table::lemma_put(s.multi, multi_key, tracker);
            assert(state@.multi == put(s.multi, multi_key, tracker));
        }
    }
    let fresh = await_answers(r, together, &mut state.pending_subscriptions);
    assert(state@ =~= subscription_tracked(s, r@, endpoint, dedicated, conn_key));
    fresh
}

/// Goes on with a subscription that has an endpoint.
fn finish_subscription(
    r: SubscribeRequest,
    endpoint: SocketAddr,
    dedicated: bool,
    conn_key: u64,
    transport: Transport,
    state: &mut RuntimeState,
    now: u64,
)
    requires
        old(state)@.wf(),
    ensures
        final(state)@ == after_subscription(
            old(state)@,
            r@,
            endpoint,
            dedicated,
            conn_key,
            transport,
            now,
        ),
        final(state)@.wf(),
{
    let key = r.key;
    state.register_subscription_endpoint(endpoint.port, key.service_id, key.instance_id);
    let fresh = track_subscription(&r, endpoint, dedicated, conn_key, state);
    if fresh.len() > 0 {
        let message = build_subscribe_message_multi(
            key.service_id,
            key.instance_id,
            key.major_version,
            fresh.as_slice(),
            endpoint,
            endpoint.port,
            state.sd_flags(true),
            r.ttl,
            transport,
        );
        state.queue_unicast_sd(message, r.sd_endpoint, now);
    }
}

/// What a subscription needs before it can go on.
pub enum SubscribeStep {
    /// Nothing: it is under way, or has failed.
    Done,
    /// A TCP connection to the server, in a slot.
    ConnectTcp {
        /// The server.
        endpoint: SocketAddr,
        /// The connection's slot.
        conn_key: u64,
        /// The local port.
        local_port: PortSpec,
        /// The subscription.
        request: SubscribeRequest,
    },
    /// A UDP socket of its own.
    BindUdp {
        /// The local address.
        ip: IpAddr,
        /// The local port.
        local_port: PortSpec,
        /// The subscription.
        request: SubscribeRequest,
    },
}

/// What a [`SubscribeStep`] says.
pub enum StepView {
    /// Nothing is needed.
    Done,
    /// A TCP connection.
    ConnectTcp {
        /// The server.
        endpoint: SocketAddr,
        /// The connection's slot.
        conn_key: u64,
        /// The local port.
        local_port: PortSpec,
        /// The subscription.
        request: RequestView,
    },
    /// A UDP socket.
    BindUdp {
        /// The local address.
        ip: IpAddr,
        /// The local port.
        local_port: PortSpec,
        /// The subscription.
        request: RequestView,
    },
}

impl View for SubscribeStep {
    type V = StepView;

    open spec fn view(&self) -> StepView {
        match *self {
            SubscribeStep::Done => StepView::Done,
            SubscribeStep::ConnectTcp { endpoint, conn_key, local_port, request } => {
                StepView::ConnectTcp { endpoint, conn_key, local_port, request: request@ }
            },
            SubscribeStep::BindUdp { ip, local_port, request } => StepView::BindUdp {
                ip,
                local_port,
                request: request@,
            },
        }
    }
}

/// The state with one subscription identifier used.
pub open spec fn subscription_id_used(s: StateView) -> StateView {
    StateView {
        next_subscription_id: if s.next_subscription_id == u64::MAX {
            0
        } else {
            (s.next_subscription_id + 1) as u64
        },
        ..s
    }
}

/// The subscription that a command makes.
pub open spec fn request_of(
    s: StateView,
    key: ServiceKey,
    eventgroup_ids: Seq<u16>,
    events: ChannelId,
    response: ChannelId,
    selection: Option<TransportSelection>,
) -> RequestView {
    RequestView {
        key,
        eventgroup_ids,
        events,
        response,
        subscription_id: s.next_subscription_id,
        sd_endpoint: lookup(s.discovered, key)->0.sd_endpoint,
        ttl: subscription_ttl(s.config.subscribe_ttl, lookup(s.discovered, key)->0.ttl),
        chosen: match selection {
            Some(x) => Some(x.transport),
            None => None,
        },
    }
}

/// Why a subscription fails at once, if it does.
pub open spec fn subscribe_refusal(
    s: StateView,
    key: ServiceKey,
    eventgroup_ids: Seq<u16>,
    selection: Option<TransportSelection>,
) -> Option<ErrorView> {
    if eventgroup_ids.len() == 0 {
        Some(ErrorView::Config("At least one eventgroup must be specified"@))
    } else {
        match subscribe_path(s, key, selection) {
            Ok(_) => None,
            Err(e) => Some(e),
        }
    }
}

/// The state after the first step of a subscription.
pub open spec fn after_subscribe_command(
    s: StateView,
    key: ServiceKey,
    eventgroup_ids: Seq<u16>,
    events: ChannelId,
    response: ChannelId,
    selection: Option<TransportSelection>,
    now: u64,
) -> StateView {
    let r = request_of(s, key, eventgroup_ids, events, response, selection);
    let t = subscription_id_used(s);
    if eventgroup_ids.len() == 0 {
        s
    } else {
        match subscribe_path(s, key, selection) {
            Ok(SubscribePath::First { endpoint }) | Ok(SubscribePath::Reuse { endpoint }) =>
            after_subscription(
                t,
                r,
                endpoint,
                false,
                0,
                Transport::Udp,
                now,
            ),
            _ => t,
        }
    }
}

/// What a subscription needs after its first step.
pub open spec fn subscribe_command_step(
    s: StateView,
    key: ServiceKey,
    eventgroup_ids: Seq<u16>,
    events: ChannelId,
    response: ChannelId,
    selection: Option<TransportSelection>,
) -> StepView {
    let request = request_of(s, key, eventgroup_ids, events, response, selection);
    if eventgroup_ids.len() == 0 {
        StepView::Done
    } else {
        match subscribe_path(s, key, selection) {
            Ok(SubscribePath::Connect { endpoint, conn_key, local_port }) => StepView::ConnectTcp {
                endpoint,
                conn_key,
                local_port,
                request,
            },
            Ok(SubscribePath::Bind { ip, local_port }) => StepView::BindUdp { ip, local_port, request },
            _ => StepView::Done,
        }
    }
}

/// A failure goes to the handle that asked.
pub open spec fn refusal_actions(response: ChannelId, refusal: Option<ErrorView>) -> Seq<
    ActionView,
> {
    match refusal {
        Some(e) => seq![
            ActionView::Deliver { to: response, message: DeliveryView::Subscribed(Err(e)) },
        ],
        None => Seq::empty(),
    }
}

pub(crate) fn push_refusal(actions: &mut Vec<Action>, response: ChannelId, error: Error)
    ensures
        views(final(actions)@) == views(old(actions)@) + refusal_actions(response, Some(error@)),
{
    let ghost before = views(actions@);
    push(actions, Action::Deliver { to: response, message: Delivery::Subscribed(Err(error)) });
    assert(views(actions@) =~= before + refusal_actions(response, Some(error@)));
}

/// Subscribes to eventgroups, all with one endpoint.
pub fn handle_subscribe_command(
    service_id: ServiceId,
    instance_id: InstanceId,
    major_version: u8,
    eventgroup_ids: Vec<u16>,
    events: ChannelId,
    response: ChannelId,
    selection: Option<TransportSelection>,
    state: &mut RuntimeState,
    actions: &mut Vec<Action>,
    now: u64,
) -> (step: SubscribeStep)
    requires
        old(state)@.wf(),
    ensures
        final(state)@ == after_subscribe_command(
            old(state)@,
            ServiceKey::of(service_id, instance_id, major_version),
            eventgroup_ids@,
            events,
            response,
            selection,
            now,
        ),
        step@ == subscribe_command_step(
            old(state)@,
            ServiceKey::of(service_id, instance_id, major_version),
            eventgroup_ids@,
            events,
            response,
            selection,
        ),
        views(final(actions)@) == views(old(actions)@) + refusal_actions(
            response,
            subscribe_refusal(
                old(state)@,
                ServiceKey::of(service_id, instance_id, major_version),
                eventgroup_ids@,
                selection,
            ),
        ),
        final(state)@.wf(),
{
    let ghost s = state@;
    let ghost before = views(actions@);
    assert(before + Seq::<ActionView>::empty() =~= before);
    if eventgroup_ids.len() == 0 {
        push_refusal(
            actions,
            response,
            Error::Config(ConfigError::new("At least one eventgroup must be specified")),
        );
        return SubscribeStep::Done;
    }
    let key = ServiceKey::new(service_id, instance_id, major_version);
    let subscription_id: u64 = state.next_subscription_id();
    assert(state@ =~= subscription_id_used(s));
    assert(subscribe_path(state@, key, selection) == subscribe_path(s, key, selection));
    let path = match find_path(state, key, selection) {
        Ok(path) => path,
        Err(e) => {
            push_refusal(actions, response, e);
            return SubscribeStep::Done;
        },
    };
    let (sd_endpoint, offer_ttl) = match state.discovered.get(&key) {
        Some(discovered) => (discovered.sd_endpoint, discovered.ttl),
        None => {
            return SubscribeStep::Done;
        },
    };
    let request = SubscribeRequest {
        key,
        eventgroup_ids,
        events,
        response,
        subscription_id,
        sd_endpoint,
        ttl: longer_ttl(state.config.subscribe_ttl, offer_ttl),
        chosen: match selection {
            Some(x) => Some(x.transport),
            None => None,
        },
    };
    assert(request@ == request_of(s, key, eventgroup_ids@, events, response, selection));
    match path {
        SubscribePath::Connect { endpoint, conn_key, local_port } => SubscribeStep::ConnectTcp {
            endpoint,
            conn_key,
            local_port,
            request,
        },
        SubscribePath::First { endpoint } => {
            finish_subscription(request, endpoint, false, 0, Transport::Udp, state, now);
            SubscribeStep::Done
        },
        SubscribePath::Reuse { endpoint } => {
            finish_subscription(request, endpoint, false, 0, Transport::Udp, state, now);
            SubscribeStep::Done
        },
        SubscribePath::Bind { ip, local_port } => SubscribeStep::BindUdp { ip, local_port, request },
    }
}

/// The failure to open what a subscription needs.
pub open spec fn io_refusal(opened: Result<SocketAddr, IoError>) -> Option<ErrorView> {
    match opened {
        Ok(_) => None,
        Err(e) => Some(ErrorView::Io(e.kind, e.message@)),
    }
}

/// Goes on with a subscription whose TCP connection was opened, at a local address, or not.
pub fn resume_connected(
    request: SubscribeRequest,
    conn_key: u64,
    opened: Result<SocketAddr, IoError>,
    state: &mut RuntimeState,
    actions: &mut Vec<Action>,
    now: u64,
)
    requires
        old(state)@.wf(),
    ensures
        final(state)@ == (match opened {
            Ok(local) => after_subscription(
                old(state)@,
                request@,
                local,
                false,
                conn_key,
                Transport::Tcp,
                now,
            ),
            Err(_) => old(state)@,
        }),
        views(final(actions)@) == views(old(actions)@) + refusal_actions(
            request.response,
            io_refusal(opened),
        ),
        final(state)@.wf(),
{
    assert(views(actions@) + Seq::<ActionView>::empty() =~= views(actions@));
    match opened {
        Ok(local) => finish_subscription(
            request,
            local,
            false,
            conn_key,
            Transport::Tcp,
            state,
            now,
        ),
        Err(e) => push_refusal(actions, request.response, Error::Io(e)),
    }
}

/// Goes on with a subscription whose socket was opened, at a local port, or not.
pub fn resume_bound(
    request: SubscribeRequest,
    ip: IpAddr,
    opened: Result<SocketAddr, IoError>,
    state: &mut RuntimeState,
    actions: &mut Vec<Action>,
    now: u64,
)
    requires
        old(state)@.wf(),
    ensures
        final(state)@ == (match opened {
            Ok(local) => after_subscription(
                old(state)@,
                request@,
                SocketAddr { ip, port: local.port },
                true,
                0,
                Transport::Udp,
                now,
            ),
            Err(_) => old(state)@,
        }),
        views(final(actions)@) == views(old(actions)@) + refusal_actions(
            request.response,
            io_refusal(opened),
        ),
        final(state)@.wf(),
{
    assert(views(actions@) + Seq::<ActionView>::empty() =~= views(actions@));
    match opened {
        Ok(local) => finish_subscription(
            request,
            SocketAddr::new(ip, local.port),
            true,
            0,
            Transport::Udp,
            state,
            now,
        ),
        Err(e) => push_refusal(actions, request.response, Error::Io(e)),
    }
}

} // verus!
