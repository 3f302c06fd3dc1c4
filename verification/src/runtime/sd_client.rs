//! Service discovery on the side that uses services: offers and answers to subscriptions.

use crate::config::{Transport, SD_TTL_INFINITE};
use crate::discovery::{L4Protocol, SdEntry, SdMessage, SdMessageView};
use crate::error::{Error, ErrorView};
use crate::message::{Delivery, DeliveryView, SdEvent, ServiceAvailability};
use crate::net::{IpAddr, SocketAddr};
use crate::runtime::action::{push, views, Action, ActionView};
use crate::runtime::client::get_endpoint_ip;
use crate::runtime::sd::{build_subscribe_message, subscribe_message};
use crate::runtime::sd_server::{entry_key, key_of};
use crate::runtime::state::{
    choose_endpoint, multi_views, ClientSubscription, DiscoveredService,
    MultiEventgroupSubscription, MultiEventgroupSubscriptionKey, MultiView, PendingSubscription,
    PendingSubscriptionKey, RuntimeState, ServiceKey, StateView, SECOND,
};
use crate::table::{has_key, lookup, put, without};
use vstd::prelude::*;

verus! {

broadcast use vstd::std_specs::hash::group_hash_axioms;

/// The endpoint that an offer names; where it names no host, the sender is the host.
pub open spec fn offered_endpoint(ep: Option<SocketAddr>, from: SocketAddr) -> Option<SocketAddr> {
    match ep {
        Some(addr) => if addr.ip.unspecified() {
            Some(SocketAddr { ip: from.ip, port: addr.port })
        } else {
            Some(addr)
        },
        None => None,
    }
}

fn resolve_endpoint(ep: Option<SocketAddr>, from: SocketAddr) -> (r: Option<SocketAddr>)
    ensures
        r == offered_endpoint(ep, from),
{
    match ep {
        Some(addr) => if addr.ip.is_unspecified() {
            Some(SocketAddr::new(from.ip, addr.port))
        } else {
            Some(addr)
        },
        None => None,
    }
}

/// When an offer ends; the largest lifetime never does.
pub open spec fn offer_end(ttl: u32, now: u64) -> u128 {
    if ttl == SD_TTL_INFINITE {
        u128::MAX
    } else {
        (now + ttl * SECOND) as u128
    }
}

fn end_of_offer(ttl: u32, now: u64) -> (r: u128)
    ensures
        r == offer_end(ttl, now),
{
    if ttl == SD_TTL_INFINITE {
        u128::MAX
    } else {
        now as u128 + ttl as u128 * SECOND
    }
}

/// The lifetime of a subscription: the configured one, or that of the offer where it is longer.
pub open spec fn subscription_ttl(configured: u32, offered: u32) -> u32 {
    if configured < offered {
        offered
    } else {
        configured
    }
}

/// The lifetime of a subscription: the configured one, or that of the offer where it is longer.
pub(crate) fn longer_ttl(configured: u32, offered: u32) -> (r: u32)
    ensures
        r == subscription_ttl(configured, offered),
{
    if configured < offered {
        offered
    } else {
        configured
    }
}

/// The transport with which a subscription is renewed or withdrawn: the one that was asked
/// for, or else the one with which the service is used.
pub open spec fn transport_for(c: ClientSubscription, used: Transport) -> Transport {
    match c.chosen {
        Some(transport) => transport,
        None => used,
    }
}

/// What an offer announces.
pub open spec fn announced(
    entry: SdEntry,
    m: SdMessageView,
    from: SocketAddr,
    now: u64,
) -> DiscoveredService {
    DiscoveredService {
        udp_endpoint: offered_endpoint(m.endpoint_of(entry, L4Protocol::Udp), from),
        tcp_endpoint: offered_endpoint(m.endpoint_of(entry, L4Protocol::Tcp), from),
        sd_endpoint: from,
        minor_version: entry.minor_version,
        ttl: entry.ttl,
        ttl_expires: offer_end(entry.ttl, now),
    }
}

/// The endpoint and transport with which an offered service is used.
pub open spec fn usable(
    s: StateView,
    entry: SdEntry,
    m: SdMessageView,
    from: SocketAddr,
    now: u64,
) -> Option<(SocketAddr, Transport)> {
    announced(entry, m, from, now).endpoint(s.config.preferred() == Transport::Tcp)
}

/// Wants the subscriptions to a service.
pub open spec fn to_service(key: ServiceKey) -> spec_fn(ClientSubscription) -> bool {
    |c: ClientSubscription| c.service == key
}

/// Wants the subscriptions to other services.
pub open spec fn to_other_service(key: ServiceKey) -> spec_fn(ClientSubscription) -> bool {
    |c: ClientSubscription| c.service != key
}

/// The address under which this host is reachable: the configured one, or else that of a
/// socket which names one.
pub open spec fn reachable_ip(s: StateView) -> Option<IpAddr> {
    if s.config.advertised_ip is Some {
        s.config.advertised_ip
    } else if !s.local_endpoint.ip.unspecified() {
        Some(s.local_endpoint.ip)
    } else if !s.client_rpc_endpoint.ip.unspecified() {
        Some(s.client_rpc_endpoint.ip)
    } else {
        None
    }
}

/// The state after the first `n` of the subscriptions have been renewed.
pub open spec fn renewed(
    s: StateView,
    subs: Seq<ClientSubscription>,
    key: ServiceKey,
    ip: IpAddr,
    ttl: u32,
    transport: Transport,
    from: SocketAddr,
    now: u64,
    n: int,
) -> StateView
    decreases n,
{
    if n <= 0 {
        s
    } else {
        renewed(s, subs, key, ip, ttl, transport, from, now, n - 1).queued(
            subscribe_message(
                key,
                seq![subs[n - 1].eventgroup_id],
                ip,
                subs[n - 1].local_endpoint.port,
                s.flags(true),
                ttl,
                transport_for(subs[n - 1], transport),
            ),
            from,
            now,
        )
    }
}

/// The state after the subscriptions to an offered service have been renewed: each with
/// its own port, for the longer of the configured lifetime and the offer's, unless
/// subscriptions never end.
pub open spec fn subscriptions_renewed(
    s: StateView,
    key: ServiceKey,
    offer_ttl: u32,
    transport: Transport,
    from: SocketAddr,
    now: u64,
) -> StateView {
    match reachable_ip(s) {
        Some(ip) => if s.config.subscribe_ttl == SD_TTL_INFINITE {
            s
        } else {
            let subs = s.subscriptions.filter(to_service(key));
            let ttl = subscription_ttl(s.config.subscribe_ttl, offer_ttl);
            renewed(s, subs, key, ip, ttl, transport, from, now, subs.len() as int)
        },
        None => s,
    }
}

/// The state after an offer: the service is known, and subscriptions to it are renewed. An
/// offer without a usable endpoint changes nothing.
pub open spec fn after_offer(
    s: StateView,
    entry: SdEntry,
    m: SdMessageView,
    from: SocketAddr,
    now: u64,
) -> StateView {
    match usable(s, entry, m, from, now) {
        Some((_, transport)) => subscriptions_renewed(
            StateView {
                discovered: put(
                    s.discovered,
                    entry_key(entry),
                    announced(entry, m, from, now),
                ),
                ..s
            },
            entry_key(entry),
            entry.ttl,
            transport,
            from,
            now,
        ),
        None => s,
    }
}

/// What an offer does besides: searches and monitors hear of a service that was not known.
pub open spec fn offer_actions(
    s: StateView,
    entry: SdEntry,
    m: SdMessageView,
    from: SocketAddr,
    now: u64,
) -> Seq<ActionView> {
    match usable(s, entry, m, from, now) {
        Some((endpoint, transport)) => if has_key(s.discovered, entry_key(entry)) {
            Seq::empty()
        } else {
            seq![
                ActionView::NotifyFound {
                    key: entry_key(entry),
                    availability: ServiceAvailability::Available {
                        endpoint,
                        transport,
                        instance_id: entry.instance_id,
                        major_version: entry.major_version,
                    },
                },
                ActionView::EmitSdEvent {
                    event: SdEvent::ServiceAvailable {
                        service_id: entry.service_id,
                        instance_id: entry.instance_id,
                        major_version: entry.major_version,
                        minor_version: entry.minor_version,
                        endpoint,
                        ttl: entry.ttl,
                    },
                },
            ]
        },
        None => Seq::empty(),
    }
}

/// Handles an offer.
pub fn handle_offer(
    entry: &SdEntry,
    sd_message: &SdMessage,
    from: SocketAddr,
    state: &mut RuntimeState,
    actions: &mut Vec<Action>,
    now: u64,
)
    requires
        old(state)@.wf(),
    ensures
        final(state)@ == after_offer(old(state)@, *entry, sd_message@, from, now),
        views(final(actions)@) == views(old(actions)@) + offer_actions(
            old(state)@,
            *entry,
            sd_message@,
            from,
            now,
        ),
        final(state)@.wf(),
{
    let ghost s = state@;
    let ghost before = views(actions@);
    assert(before + Seq::<ActionView>::empty() =~= before);
    let udp_endpoint = resolve_endpoint(sd_message.get_udp_endpoint(entry), from);
    let tcp_endpoint = resolve_endpoint(sd_message.get_tcp_endpoint(entry), from);
    let prefer_tcp: bool = state.config.preferred_transport() == Transport::Tcp;
    let (endpoint, transport) = match choose_endpoint(udp_endpoint, tcp_endpoint, prefer_tcp) {
        Some(x) => x,
        None => {
            return;
        },
    };
    let key = key_of(entry);
    let is_new: bool = !state.discovered.contains(&key);
    state.discovered.insert(
        key,
        DiscoveredService {
            udp_endpoint,
            tcp_endpoint,
            sd_endpoint: from,
            minor_version: entry.minor_version,
            ttl: entry.ttl,
            ttl_expires: end_of_offer(entry.ttl, now),
        },
    );
    if is_new {
        push(
            actions,
            Action::NotifyFound {
                key,
                availability: ServiceAvailability::Available {
                    endpoint,
                    transport,
                    instance_id: entry.instance_id,
                    major_version: entry.major_version,
                },
            },
        );
        push(
            actions,
            Action::EmitSdEvent {
                event: SdEvent::ServiceAvailable {
                    service_id: entry.service_id,
                    instance_id: entry.instance_id,
                    major_version: entry.major_version,
                    minor_version: entry.minor_version,
                    endpoint,
                    ttl: entry.ttl,
                },
            },
        );
    }
    assert(views(actions@) =~= before + offer_actions(s, *entry, sd_message@, from, now));
    assert(state@ =~= (StateView {
        discovered: put(s.discovered, key, announced(*entry, sd_message@, from, now)),
        ..s
    }));
    renew_subscriptions(key, entry.ttl, transport, from, state, now);
}

fn renew_subscriptions(
    key: ServiceKey,
    offer_ttl: u32,
    transport: Transport,
    from: SocketAddr,
    state: &mut RuntimeState,
    now: u64,
)
    requires
        old(state)@.wf(),
    ensures
        final(state)@ == subscriptions_renewed(old(state)@, key, offer_ttl, transport, from, now),
        final(state)@.wf(),
{
    let ghost s = state@;
    let wanted = |c: ClientSubscription| -> (b: bool)
        ensures
            b == (c.service == key),
        { c.service == key };
    let subs = crate::rows::select(&state.subscriptions, wanted, Ghost(to_service(key)));
    if subs.len() == 0 {
        return;
    }
    let ip = match get_endpoint_ip(state) {
        Some(ip) => ip,
        None => {
            return;
        },
    };
    if state.config.subscribe_ttl == SD_TTL_INFINITE {
        return;
    }
    let flags: u8 = state.sd_flags(true);
    let ttl: u32 = longer_ttl(state.config.subscribe_ttl, offer_ttl);
    let mut i: usize = 0;
    while i < subs.len()
        invariant
            0 <= i <= subs@.len(),
            flags == s.flags(true),
            state@ == renewed(s, subs@, key, ip, ttl, transport, from, now, i as int),
            state@.wf(),
        decreases subs@.len() - i,
    {
        let sub = subs[i];
        let chosen = match sub.chosen {
            Some(chosen) => chosen,
            None => transport,
        };
        let endpoint = SocketAddr::new(ip, sub.local_endpoint.port);
        let message = build_subscribe_message(
            key.service_id,
            key.instance_id,
            key.major_version,
            sub.eventgroup_id,
            endpoint,
            endpoint.port,
            flags,
            ttl,
            chosen,
        );
        state.queue_unicast_sd(message, from, now);
        i += 1;
    }
}

/// The state after the withdrawal of an offer: the service is unknown, and subscriptions
/// to it end.
pub open spec fn after_stop_offer(s: StateView, entry: SdEntry) -> StateView {
    if has_key(s.discovered, entry_key(entry)) {
        StateView {
            discovered: without(s.discovered, entry_key(entry)),
            subscriptions: s.subscriptions.filter(to_other_service(entry_key(entry))),
            ..s
        }
    } else {
        s
    }
}

/// What the withdrawal of an offer does besides: monitors hear of a service that was known.
pub open spec fn stop_offer_actions(s: StateView, entry: SdEntry) -> Seq<ActionView> {
    if has_key(s.discovered, entry_key(entry)) {
        seq![
            ActionView::EmitSdEvent {
                event: SdEvent::ServiceUnavailable {
                    service_id: entry.service_id,
                    instance_id: entry.instance_id,
                },
            },
        ]
    } else {
        Seq::empty()
    }
}

/// Handles the withdrawal of an offer.
pub fn handle_stop_offer(entry: &SdEntry, state: &mut RuntimeState, actions: &mut Vec<Action>)
    requires
        old(state)@.wf(),
    ensures
        final(state)@ == after_stop_offer(old(state)@, *entry),
        views(final(actions)@) == views(old(actions)@) + stop_offer_actions(old(state)@, *entry),
        final(state)@.wf(),
{
    let ghost s = state@;
    let ghost before = views(actions@);
    assert(before + Seq::<ActionView>::empty() =~= before);
    let key = key_of(entry);
    match state.discovered.remove(&key) {
        Some(_) => {
            let others = |c: ClientSubscription| -> (b: bool)
                ensures
                    b == (c.service != key),
                { c.service != key };
            crate::rows::keep(&mut state.subscriptions, others, Ghost(to_other_service(key)));
            push(
                actions,
                Action::EmitSdEvent {
                    event: SdEvent::ServiceUnavailable {
                        service_id: entry.service_id,
                        instance_id: entry.instance_id,
                    },
                },
            );
            assert(views(actions@) =~= before + stop_offer_actions(s, *entry));
            assert(state@ =~= after_stop_offer(s, *entry));
        },
        None => {
            proof {
                crate::table::lemma_without(s.discovered, key);
            }
            assert(state@ =~= s);
        },
    }
}

/// The eventgroup whose subscription an entry answers.
pub open spec fn pending_key(entry: SdEntry) -> PendingSubscriptionKey {
    PendingSubscriptionKey {
        service_id: entry.service_id,
        instance_id: entry.instance_id,
        major_version: entry.major_version,
        eventgroup_id: entry.eventgroup_id,
    }
}

fn pending_key_of(entry: &SdEntry) -> (r: PendingSubscriptionKey)
    ensures
        r == pending_key(*entry),
{
    PendingSubscriptionKey {
        service_id: entry.service_id,
        instance_id: entry.instance_id,
        major_version: entry.major_version,
        eventgroup_id: entry.eventgroup_id,
    }
}

/// The subscription to several eventgroups of the service that an entry names.
pub open spec fn multi_key(entry: SdEntry, subscription_id: u64) -> MultiEventgroupSubscriptionKey {
    MultiEventgroupSubscriptionKey {
        service_id: entry.service_id,
        instance_id: entry.instance_id,
        major_version: entry.major_version,
        subscription_id,
    }
}

fn multi_key_of(entry: &SdEntry, subscription_id: u64) -> (r: MultiEventgroupSubscriptionKey)
    ensures
        r == multi_key(*entry, subscription_id),
{
    MultiEventgroupSubscriptionKey {
        service_id: entry.service_id,
        instance_id: entry.instance_id,
        major_version: entry.major_version,
        subscription_id,
    }
}

/// A subscription that awaits its answer, with its eventgroup.
pub type PendingRow = (PendingSubscriptionKey, PendingSubscription);

/// Wants what awaits the answer for an eventgroup.
pub open spec fn awaiting(key: PendingSubscriptionKey) -> spec_fn(PendingRow) -> bool {
    |r: PendingRow| r.0 == key
}

/// Wants what awaits other answers.
pub open spec fn awaiting_other(key: PendingSubscriptionKey) -> spec_fn(PendingRow) -> bool {
    |r: PendingRow| r.0 != key
}

/// The outcome of a subscription goes to its handle, where there is one.
pub open spec fn report(response: Option<u64>, outcome: Result<u64, ErrorView>) -> Seq<ActionView> {
    match response {
        Some(to) => seq![ActionView::Deliver { to, message: DeliveryView::Subscribed(outcome) }],
        None => Seq::empty(),
    }
}

fn push_report(actions: &mut Vec<Action>, response: Option<u64>, result: Result<u64, Error>)
    ensures
        views(final(actions)@) == views(old(actions)@) + report(
            response,
            crate::message::outcome(result),
        ),
{
    let ghost before = views(actions@);
    match response {
        Some(to) => {
            push(actions, Action::Deliver { to, message: Delivery::Subscribed(result) });
        },
        None => {},
    }
    assert(views(actions@) =~= before + report(response, crate::message::outcome(result)));
}

/// Every eventgroup of the subscription is acknowledged.
pub open spec fn all_acked(m: MultiView) -> bool {
    forall|i: int|
        0 <= i < m.eventgroup_ids.len() ==> m.acked.contains(#[trigger] m.eventgroup_ids[i])
}

/// The state and the actions after one subscription was acknowledged. One to several
/// eventgroups succeeds with the last of them.
pub open spec fn acked_one(
    s: StateView,
    acts: Seq<ActionView>,
    entry: SdEntry,
    p: PendingSubscription,
) -> (StateView, Seq<ActionView>) {
    let key = multi_key(entry, p.subscription_id);
    match lookup(s.multi, key) {
        Some(multi) => {
            let marked = MultiView { acked: multi.acked.insert(entry.eventgroup_id), ..multi };
            if all_acked(marked) {
                (
                    StateView { multi: without(s.multi, key), ..s },
                    acts + report(multi.response, Ok(p.subscription_id)),
                )
            } else {
                (StateView { multi: put(s.multi, key, marked), ..s }, acts)
            }
        },
        None => (s, acts + report(p.response, Ok(p.subscription_id))),
    }
}

/// The state and the actions after the first `n` of the waiting subscriptions were
/// acknowledged.
pub open spec fn acked_many(
    s: StateView,
    acts: Seq<ActionView>,
    entry: SdEntry,
    waiting: Seq<PendingRow>,
    n: int,
) -> (StateView, Seq<ActionView>)
    decreases n,
{
    if n <= 0 {
        (s, acts)
    } else {
        let (t, a) = acked_many(s, acts, entry, waiting, n - 1);
        acked_one(t, a, entry, waiting[n - 1].1)
    }
}

/// The state and the actions after an acknowledgement: everything that awaits the answer
/// for this eventgroup is acknowledged.
pub open spec fn after_ack(s: StateView, acts: Seq<ActionView>, entry: SdEntry) -> (
    StateView,
    Seq<ActionView>,
) {
    let waiting = s.pending_subscriptions.filter(awaiting(pending_key(entry)));
    acked_many(
        StateView {
            pending_subscriptions: s.pending_subscriptions.filter(
                awaiting_other(pending_key(entry)),
            ),
            ..s
        },
        acts,
        entry,
        waiting,
        waiting.len() as int,
    )
}

fn take_waiting(key: PendingSubscriptionKey, state: &mut RuntimeState) -> (r: Vec<PendingRow>)
    requires
        old(state)@.wf(),
    ensures
        r@ == old(state)@.pending_subscriptions.filter(awaiting(key)),
        final(state)@ == (StateView {
            pending_subscriptions: old(state)@.pending_subscriptions.filter(awaiting_other(key)),
            ..old(state)@
        }),
        final(state)@.wf(),
{
    let wanted = |x: PendingRow| -> (b: bool)
        ensures
            b == (x.0 == key),
        { x.0 == key };
    let others = |x: PendingRow| -> (b: bool)
        ensures
            b == (x.0 != key),
        { x.0 != key };
    let r = crate::rows::select(&state.pending_subscriptions, wanted, Ghost(awaiting(key)));
    let ghost s = state@;
    crate::rows::keep(&mut state.pending_subscriptions, others, Ghost(awaiting_other(key)));
    assert(state@ =~= (StateView {
        pending_subscriptions: s.pending_subscriptions.filter(awaiting_other(key)),
        ..s
    }));
    r
}

fn completes(m: &MultiEventgroupSubscription, eventgroup_id: u16) -> (r: bool)
    ensures
        r == all_acked(MultiView { acked: m@.acked.insert(eventgroup_id), ..m@ }),
{
    let ghost marked = MultiView { acked: m@.acked.insert(eventgroup_id), ..m@ };
    let mut i: usize = 0;
    while i < m.eventgroup_ids.len()
        invariant
            0 <= i <= m.eventgroup_ids@.len(),
            marked == (MultiView { acked: m@.acked.insert(eventgroup_id), ..m@ }),
            forall|j: int|
                0 <= j < i ==> marked.acked.contains(#[trigger] marked.eventgroup_ids[j]),
        decreases m.eventgroup_ids@.len() - i,
    {
        if m.eventgroup_ids[i] != eventgroup_id && !m.acked_eventgroups.contains(
            &m.eventgroup_ids[i],
        ) {
            assert(!marked.acked.contains(marked.eventgroup_ids[i as int]));
            return false;
        }
        i += 1;
    }
    true
}

/// What a subscription to several eventgroups says.
pub open spec fn multi_view() -> spec_fn(MultiEventgroupSubscription) -> MultiView {
    |v: MultiEventgroupSubscription| v@
}

/// A table of subscriptions to several eventgroups has distinct keys where its view has.
pub proof fn lemma_multi_views(
    s: Seq<(MultiEventgroupSubscriptionKey, MultiEventgroupSubscription)>,
)
    ensures
        multi_views(s) == crate::table::map_table(s, multi_view()),
        crate::table::distinct(multi_views(s)) ==> crate::table::distinct(s),
{
    assert(multi_views(s) =~= crate::table::map_table(s, multi_view()));
    if crate::table::distinct(multi_views(s)) {
        let m = multi_views(s);
        assert forall|i: int, j: int| 0 <= i < j < s.len() implies (#[trigger] s[i]).0 != (
        #[trigger] s[j]).0 by {
            assert(m[i].0 == s[i].0 && m[j].0 == s[j].0);
        }
    }
}

fn acknowledge(
    entry: &SdEntry,
    p: PendingSubscription,
    state: &mut RuntimeState,
    actions: &mut Vec<Action>,
)
    requires
        old(state)@.wf(),
    ensures
        (final(state)@, views(final(actions)@)) == acked_one(
            old(state)@,
            views(old(actions)@),
            *entry,
            p,
        ),
        final(state)@.wf(),
{
    let ghost s = state@;
    let ghost before = views(actions@);
    let key = multi_key_of(entry, p.subscription_id);
    let ghost t = state.multi_eventgroup_subscriptions@;
    proof {
        lemma_multi_views(t);
        crate::table::lemma_map_table(t, multi_view());
    }
    match state.multi_eventgroup_subscriptions.position(&key) {
        Some(i) => {
            proof {
                crate::table::lemma_lookup_at(t, i as int);
                crate::table::lemma_lookup_at(s.multi, i as int);
            }
            let multi = state.multi_eventgroup_subscriptions.value_at(i);
            let ghost marked = MultiView {
                acked: multi@.acked.insert(entry.eventgroup_id),
                ..multi@
            };
            assert(lookup(s.multi, key) == Some(multi@));
            if completes(multi, entry.eventgroup_id) {
                let response = multi.response;
                let _ = state.multi_eventgroup_subscriptions.remove(&key);
                proof {
                    lemma_multi_views(state.multi_eventgroup_subscriptions@);
                    crate::table::lemma_without(s.multi, key);
                }
                push_report(actions, response, Ok(p.subscription_id));
                assert(state@ =~= (StateView { multi: without(s.multi, key), ..s }));
            } else {
                let multi = state.multi_eventgroup_subscriptions.value_mut(i);
                multi.acked_eventgroups.insert(entry.eventgroup_id);
                proof {
                    let after = state.multi_eventgroup_subscriptions@;
                    lemma_multi_views(after);
                    assert(after[i as int].1@ == marked);
                    assert(multi_views(after) =~= put(s.multi, key, marked));
                    crate::table::lemma_put(s.multi, key, marked);
                }
                assert(state@ =~= (StateView { multi: put(s.multi, key, marked), ..s }));
            }
        },
        None => {
            push_report(actions, p.response, Ok(p.subscription_id));
        },
    }
}

/// Handles the acknowledgement of a subscription.
pub fn handle_subscribe_ack(entry: &SdEntry, state: &mut RuntimeState, actions: &mut Vec<Action>)
    requires
        old(state)@.wf(),
    ensures
        (final(state)@, views(final(actions)@)) == after_ack(
            old(state)@,
            views(old(actions)@),
            *entry,
        ),
        final(state)@.wf(),
{
    let ghost acts = views(actions@);
    let waiting = take_waiting(pending_key_of(entry), state);
    let ghost s = state@;
    let mut i: usize = 0;
    while i < waiting.len()
        invariant
            0 <= i <= waiting@.len(),
            (state@, views(actions@)) == acked_many(s, acts, *entry, waiting@, i as int),
            state@.wf(),
        decreases waiting@.len() - i,
    {
        acknowledge(entry, waiting[i].1, state, actions);
        i += 1;
    }
}

/// Wants what is not of a subscription to a service.
pub open spec fn not_of_subscription(key: ServiceKey, subscription_id: u64) -> spec_fn(
    ClientSubscription,
) -> bool {
    |c: ClientSubscription| !(c.service == key && c.subscription_id == subscription_id)
}

/// Wants what is not of an eventgroup of a service.
pub open spec fn not_of_eventgroup(key: ServiceKey, eventgroup_id: u16) -> spec_fn(
    ClientSubscription,
) -> bool {
    |c: ClientSubscription| !(c.service == key && c.eventgroup_id == eventgroup_id)
}

/// Wants what is not of the other eventgroups of a refused subscription.
pub open spec fn not_refused(entry: SdEntry, ids: Seq<u16>, subscription_id: u64) -> spec_fn(
    PendingRow,
) -> bool {
    |r: PendingRow|
        !(r.0.service_id == entry.service_id && r.0.instance_id == entry.instance_id
            && r.0.major_version == entry.major_version && r.0.eventgroup_id
            != entry.eventgroup_id && ids.contains(r.0.eventgroup_id) && r.1.subscription_id
            == subscription_id)
}

/// The state and the actions after one subscription was refused. One to several
/// eventgroups fails as a whole: none of its eventgroups is subscribed or awaited any more.
pub open spec fn nacked_one(
    s: StateView,
    acts: Seq<ActionView>,
    entry: SdEntry,
    p: PendingSubscription,
) -> (StateView, Seq<ActionView>) {
    let key = multi_key(entry, p.subscription_id);
    match lookup(s.multi, key) {
        Some(multi) => (
            StateView {
                multi: without(s.multi, key),
                subscriptions: s.subscriptions.filter(
                    not_of_subscription(entry_key(entry), p.subscription_id),
                ),
                pending_subscriptions: s.pending_subscriptions.filter(
                    not_refused(entry, multi.eventgroup_ids, p.subscription_id),
                ),
                ..s
            },
            acts + report(multi.response, Err(ErrorView::SubscriptionRejected)),
        ),
        None => (s, acts + report(p.response, Err(ErrorView::SubscriptionRejected))),
    }
}

/// The state and the actions after the first `n` of the waiting subscriptions were refused.
pub open spec fn nacked_many(
    s: StateView,
    acts: Seq<ActionView>,
    entry: SdEntry,
    waiting: Seq<PendingRow>,
    n: int,
) -> (StateView, Seq<ActionView>)
    decreases n,
{
    if n <= 0 {
        (s, acts)
    } else {
        let (t, a) = nacked_many(s, acts, entry, waiting, n - 1);
        nacked_one(t, a, entry, waiting[n - 1].1)
    }
}

/// The state and the actions after a refusal: everything that awaits the answer for this
/// eventgroup is refused, and no subscription to it remains.
pub open spec fn after_nack(s: StateView, acts: Seq<ActionView>, entry: SdEntry) -> (
    StateView,
    Seq<ActionView>,
) {
    let waiting = s.pending_subscriptions.filter(awaiting(pending_key(entry)));
    let (t, a) = nacked_many(
        StateView {
            pending_subscriptions: s.pending_subscriptions.filter(
                awaiting_other(pending_key(entry)),
            ),
            ..s
        },
        acts,
        entry,
        waiting,
        waiting.len() as int,
    );
    (
        StateView {
            subscriptions: t.subscriptions.filter(
                not_of_eventgroup(entry_key(entry), entry.eventgroup_id),
            ),
            ..t
        },
        a,
    )
}

fn contains_id(ids: &Vec<u16>, id: u16) -> (r: bool)
    ensures
        r == ids@.contains(id),
{
    let mut i: usize = 0;
    while i < ids.len()
        invariant
            0 <= i <= ids@.len(),
            forall|j: int| 0 <= j < i ==> ids@[j] != id,
        decreases ids@.len() - i,
    {
        if ids[i] == id {
            return true;
        }
        i += 1;
    }
    false
}

fn refuse(
    entry: &SdEntry,
    p: PendingSubscription,
    state: &mut RuntimeState,
    actions: &mut Vec<Action>,
)
    requires
        old(state)@.wf(),
    ensures
        (final(state)@, views(final(actions)@)) == nacked_one(
            old(state)@,
            views(old(actions)@),
            *entry,
            p,
        ),
        final(state)@.wf(),
{
    let ghost s = state@;
    let key = multi_key_of(entry, p.subscription_id);
    let ghost t = state.multi_eventgroup_subscriptions@;
    proof {
        lemma_multi_views(t);
        crate::table::lemma_map_table(t, multi_view());
        crate::table::lemma_without(t, key);
        crate::table::lemma_without(s.multi, key);
    }
    match state.multi_eventgroup_subscriptions.remove(&key) {
        Some(multi) => {
            proof {
                lemma_multi_views(state.multi_eventgroup_subscriptions@);
            }
            push_report(actions, multi.response, Err(Error::SubscriptionRejected));
            let service = key_of(entry);
            let id: u64 = p.subscription_id;
            let kept = |c: ClientSubscription| -> (b: bool)
                ensures
                    b == !(c.service == service && c.subscription_id == id),
                { !(c.service == service && c.subscription_id == id) };
            crate::rows::keep(
                &mut state.subscriptions,
                kept,
                Ghost(not_of_subscription(service, id)),
            );
            let ids = multi.eventgroup_ids;
            let entry = *entry;
            let waits = |r: PendingRow| -> (b: bool)
                ensures
                    b == not_refused(entry, ids@, id)(r),
                {
                    !(r.0.service_id == entry.service_id && r.0.instance_id == entry.instance_id
                        && r.0.major_version == entry.major_version && r.0.eventgroup_id
                        != entry.eventgroup_id && contains_id(&ids, r.0.eventgroup_id)
                        && r.1.subscription_id == id)
                };
            crate::rows::keep(
                &mut state.pending_subscriptions,
                waits,
                Ghost(not_refused(entry, ids@, id)),
            );
            assert(state@ =~= (StateView {
                multi: without(s.multi, key),
                subscriptions: s.subscriptions.filter(not_of_subscription(service, id)),
                pending_subscriptions: s.pending_subscriptions.filter(
                    not_refused(entry, ids@, id),
                ),
                ..s
            }));
        },
        None => {
            push_report(actions, p.response, Err(Error::SubscriptionRejected));
            assert(state@ =~= s);
        },
    }
}

/// Handles the refusal of a subscription.
pub fn handle_subscribe_nack(entry: &SdEntry, state: &mut RuntimeState, actions: &mut Vec<Action>)
    requires
        old(state)@.wf(),
    ensures
        (final(state)@, views(final(actions)@)) == after_nack(
            old(state)@,
            views(old(actions)@),
            *entry,
        ),
        final(state)@.wf(),
{
    let ghost s0 = state@;
    let ghost acts = views(actions@);
    let waiting = take_waiting(pending_key_of(entry), state);
    let ghost s = state@;
    let mut i: usize = 0;
    while i < waiting.len()
        invariant
            0 <= i <= waiting@.len(),
            (state@, views(actions@)) == nacked_many(s, acts, *entry, waiting@, i as int),
            state@.wf(),
        decreases waiting@.len() - i,
    {
        refuse(entry, waiting[i].1, state, actions);
        i += 1;
    }
    let ghost t = state@;
    let service = key_of(entry);
    let group: u16 = entry.eventgroup_id;
    let kept = |c: ClientSubscription| -> (b: bool)
        ensures
            b == !(c.service == service && c.eventgroup_id == group),
        { !(c.service == service && c.eventgroup_id == group) };
    crate::rows::keep(&mut state.subscriptions, kept, Ghost(not_of_eventgroup(service, group)));
    assert(state@ =~= (StateView {
        subscriptions: t.subscriptions.filter(not_of_eventgroup(service, group)),
        ..t
    }));
}

} // verus!
