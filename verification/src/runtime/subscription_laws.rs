//! What holds of subscriptions, whatever the state.

use crate::config::{Transport, TransportSelection};
use crate::discovery::SdEntry;
use crate::error::ErrorView;
use crate::message::{ChannelId, DeliveryView};
use crate::net::SocketAddr;
use crate::runtime::action::ActionView;
use crate::runtime::client::{
    after_unsubscribe, is_subscription, not_subscription, port_in_use, subscription_meant,
    subscription_removed,
};
use crate::runtime::sd::{subscribe_message, subscription_names_its_endpoint};
use crate::runtime::sd_client::{
    acked_many, acked_one, after_ack, after_nack, awaiting, awaiting_other, multi_key,
    nacked_many, nacked_one, not_of_eventgroup, not_of_subscription, not_refused, pending_key,
    PendingRow,
};
use crate::runtime::sd_server::{accepted, ack_message, after_subscribe, entry_key, expiry, slot_of};
use crate::runtime::state::{
    ClientSubscription, EndpointUse, MultiView, PendingSubscription, PendingSubscriptionKey,
    ServerSubscription, ServiceKey, StateView,
};
use crate::runtime::subscribe::{
    after_subscribe_command, after_subscription, is_awaited, is_subscribed, new_subscriptions,
    next_slot_is_free, refusal_actions, slots_in_use, subscribe_command_step, subscribe_path,
    subscribe_refusal, RequestView, StepView, SubscribePath,
};
use crate::table::{distinct, has_key, lemma_put, lemma_without, lookup, without};
use vstd::prelude::*;

verus! {

proof fn lemma_none_awaited(pending: Seq<PendingRow>, key: PendingSubscriptionKey)
    ensures
        !is_awaited(pending.filter(awaiting_other(key)), key),
{
    let rest = pending.filter(awaiting_other(key));
    assert forall|i: int| 0 <= i < rest.len() implies (#[trigger] rest[i]).0 != key by {
        assert(rest.contains(rest[i]));
        crate::rows::lemma_filter_contains(pending, awaiting_other(key), rest[i]);
    }
}

proof fn lemma_acked_many(
    s: StateView,
    acts: Seq<ActionView>,
    entry: SdEntry,
    waiting: Seq<PendingRow>,
    n: int,
)
    ensures
        acked_many(s, acts, entry, waiting, n).0.pending_subscriptions == s.pending_subscriptions,
        acked_many(s, acts, entry, waiting, n).0.subscriptions == s.subscriptions,
    decreases n,
{
    if n > 0 {
        lemma_acked_many(s, acts, entry, waiting, n - 1);
    }
}

proof fn lemma_nacked_pending(
    s: StateView,
    acts: Seq<ActionView>,
    entry: SdEntry,
    waiting: Seq<PendingRow>,
    n: int,
    row: PendingRow,
)
    ensures
        nacked_many(s, acts, entry, waiting, n).0.pending_subscriptions.contains(row)
            ==> s.pending_subscriptions.contains(row),
    decreases n,
{
    if n > 0 {
        lemma_nacked_pending(s, acts, entry, waiting, n - 1, row);
        let (t, a) = nacked_many(s, acts, entry, waiting, n - 1);
        let p = waiting[n - 1].1;
        if let Some(multi) = lookup(t.multi, multi_key(entry, p.subscription_id)) {
            crate::rows::lemma_filter_contains(
                t.pending_subscriptions,
                not_refused(entry, multi.eventgroup_ids, p.subscription_id),
                row,
            );
        }
    }
}

/// Whatever the answer is, nothing awaits it afterwards. An acknowledgement ends no
/// subscription; a refusal ends every subscription to its eventgroup.
pub proof fn an_answer_ends_the_wait(s: StateView, acts: Seq<ActionView>, entry: SdEntry)
    ensures
        !is_awaited(after_ack(s, acts, entry).0.pending_subscriptions, pending_key(entry)),
        !is_awaited(after_nack(s, acts, entry).0.pending_subscriptions, pending_key(entry)),
        after_ack(s, acts, entry).0.subscriptions == s.subscriptions,
        forall|i: int|
            0 <= i < after_nack(s, acts, entry).0.subscriptions.len() ==> !((
            #[trigger] after_nack(s, acts, entry).0.subscriptions[i]).service == entry_key(entry)
                && after_nack(s, acts, entry).0.subscriptions[i].eventgroup_id
                == entry.eventgroup_id),
{
    let key = pending_key(entry);
    let waiting = s.pending_subscriptions.filter(awaiting(key));
    let rest = s.pending_subscriptions.filter(awaiting_other(key));
    let t = StateView { pending_subscriptions: rest, ..s };
    let n = waiting.len() as int;
    lemma_none_awaited(s.pending_subscriptions, key);
    lemma_acked_many(t, acts, entry, waiting, n);
    let u = nacked_many(t, acts, entry, waiting, n).0;
    assert forall|i: int| 0 <= i < u.pending_subscriptions.len() implies (
    #[trigger] u.pending_subscriptions[i]).0 != key by {
        let row = u.pending_subscriptions[i];
        assert(u.pending_subscriptions.contains(row));
        lemma_nacked_pending(t, acts, entry, waiting, n, row);
        let j = choose|j: int| 0 <= j < rest.len() && rest[j] == row;
        assert(rest[j].0 != key);
    }
    let after = after_nack(s, acts, entry).0;
    let p = not_of_eventgroup(entry_key(entry), entry.eventgroup_id);
    assert forall|i: int| 0 <= i < after.subscriptions.len() implies !((
    #[trigger] after.subscriptions[i]).service == entry_key(entry)
        && after.subscriptions[i].eventgroup_id == entry.eventgroup_id) by {
        assert(after.subscriptions.contains(after.subscriptions[i]));
        crate::rows::lemma_filter_contains(u.subscriptions, p, after.subscriptions[i]);
    }
}

/// One of the first `n` waiting rows is of the subscription.
pub open spec fn waits(waiting: Seq<PendingRow>, subscription_id: u64, n: int) -> bool {
    exists|j: int| 0 <= j < n && (#[trigger] waiting[j]).1.subscription_id == subscription_id
}

/// Nothing is left of a subscription to several eventgroups: neither its tracker, nor a
/// subscription to any of its eventgroups.
pub open spec fn nothing_left(s: StateView, entry: SdEntry, subscription_id: u64) -> bool {
    &&& !has_key(s.multi, multi_key(entry, subscription_id))
    &&& forall|i: int|
        0 <= i < s.subscriptions.len() ==> !((#[trigger] s.subscriptions[i]).service == entry_key(
            entry,
        ) && s.subscriptions[i].subscription_id == subscription_id)
}

proof fn lemma_still_nothing_left(
    s: StateView,
    entry: SdEntry,
    subscription_id: u64,
    p: spec_fn(ClientSubscription) -> bool,
)
    requires
        nothing_left(s, entry, subscription_id),
    ensures
        nothing_left(
            StateView { subscriptions: s.subscriptions.filter(p), ..s },
            entry,
            subscription_id,
        ),
{
    let kept = s.subscriptions.filter(p);
    assert forall|i: int| 0 <= i < kept.len() implies !((#[trigger] kept[i]).service == entry_key(
        entry,
    ) && kept[i].subscription_id == subscription_id) by {
        assert(kept.contains(kept[i]));
        crate::rows::lemma_filter_contains(s.subscriptions, p, kept[i]);
        let j = choose|j: int| 0 <= j < s.subscriptions.len() && s.subscriptions[j] == kept[i];
        assert(s.subscriptions[j] == kept[i]);
    }
}

proof fn lemma_nacked_many(
    s: StateView,
    acts: Seq<ActionView>,
    entry: SdEntry,
    waiting: Seq<PendingRow>,
    n: int,
    subscription_id: u64,
)
    requires
        distinct(s.multi),
        0 <= n <= waiting.len(),
        has_key(s.multi, multi_key(entry, subscription_id)),
    ensures
        distinct(nacked_many(s, acts, entry, waiting, n).0.multi),
        waits(waiting, subscription_id, n) ==> nothing_left(
            nacked_many(s, acts, entry, waiting, n).0,
            entry,
            subscription_id,
        ),
        !waits(waiting, subscription_id, n) ==> lookup(
            nacked_many(s, acts, entry, waiting, n).0.multi,
            multi_key(entry, subscription_id),
        ) == lookup(s.multi, multi_key(entry, subscription_id)),
    decreases n,
{
    if n > 0 {
        lemma_nacked_many(s, acts, entry, waiting, n - 1, subscription_id);
        let (t, a) = nacked_many(s, acts, entry, waiting, n - 1);
        let p = waiting[n - 1].1;
        let key = multi_key(entry, p.subscription_id);
        let own = multi_key(entry, subscription_id);
        let u = nacked_one(t, a, entry, p).0;
        lemma_without(t.multi, key);
        let kept = not_of_subscription(entry_key(entry), p.subscription_id);
        if waits(waiting, subscription_id, n - 1) {
            let j = choose|j: int|
                0 <= j < n - 1 && (#[trigger] waiting[j]).1.subscription_id == subscription_id;
            assert(waiting[j].1.subscription_id == subscription_id);
            lemma_still_nothing_left(t, entry, subscription_id, kept);
            assert(lookup(u.multi, own) is None) by {
                if key != own {
                    assert(lookup(without(t.multi, key), own) == lookup(t.multi, own));
                }
            }
        } else if p.subscription_id == subscription_id {
            assert(waits(waiting, subscription_id, n));
            assert(has_key(t.multi, own));
            assert forall|i: int| 0 <= i < u.subscriptions.len() implies !((
            #[trigger] u.subscriptions[i]).service == entry_key(entry)
                && u.subscriptions[i].subscription_id == subscription_id) by {
                assert(u.subscriptions.contains(u.subscriptions[i]));
                crate::rows::lemma_filter_contains(t.subscriptions, kept, u.subscriptions[i]);
            }
        } else {
            assert(key != own);
            assert(!waits(waiting, subscription_id, n)) by {
                if waits(waiting, subscription_id, n) {
                    let j = choose|j: int|
                        0 <= j < n && (#[trigger] waiting[j]).1.subscription_id
                            == subscription_id;
                    assert(j < n - 1);
                    assert(waiting[j].1.subscription_id == subscription_id);
                }
            }
            assert(lookup(u.multi, own) == lookup(t.multi, own));
        }
    }
}

/// A subscription to several eventgroups fails as a whole: when one of them is refused,
/// nothing of the subscription is left, not even to the eventgroups that were acknowledged.
pub proof fn a_refusal_fails_the_whole_subscription(
    s: StateView,
    acts: Seq<ActionView>,
    entry: SdEntry,
    subscription_id: u64,
)
    requires
        distinct(s.multi),
        has_key(s.multi, multi_key(entry, subscription_id)),
        exists|i: int|
            0 <= i < s.pending_subscriptions.len() && (#[trigger] s.pending_subscriptions[i]).0
                == pending_key(entry) && s.pending_subscriptions[i].1.subscription_id
                == subscription_id,
    ensures
        nothing_left(after_nack(s, acts, entry).0, entry, subscription_id),
{
    let key = pending_key(entry);
    let waiting = s.pending_subscriptions.filter(awaiting(key));
    let i = choose|i: int|
        0 <= i < s.pending_subscriptions.len() && (#[trigger] s.pending_subscriptions[i]).0 == key
            && s.pending_subscriptions[i].1.subscription_id == subscription_id;
    let row = s.pending_subscriptions[i];
    assert(s.pending_subscriptions.contains(row));
    crate::rows::lemma_filter_contains(s.pending_subscriptions, awaiting(key), row);
    let j = choose|j: int| 0 <= j < waiting.len() && waiting[j] == row;
    assert(waiting[j].1.subscription_id == subscription_id);
    let t = StateView {
        pending_subscriptions: s.pending_subscriptions.filter(awaiting_other(key)),
        ..s
    };
    lemma_nacked_many(t, acts, entry, waiting, waiting.len() as int, subscription_id);
    let u = nacked_many(t, acts, entry, waiting, waiting.len() as int).0;
    lemma_still_nothing_left(
        u,
        entry,
        subscription_id,
        not_of_eventgroup(entry_key(entry), entry.eventgroup_id),
    );
}

/// A refused attempt to subscribe leaves nothing behind but a used identifier, and its
/// handle hears why; an attempt that is not refused is not reported on yet.
pub proof fn a_refused_attempt_leaves_nothing(
    s: StateView,
    key: ServiceKey,
    eventgroup_ids: Seq<u16>,
    events: ChannelId,
    response: ChannelId,
    selection: Option<TransportSelection>,
    now: u64,
)
    ensures
        ({
            let t = after_subscribe_command(
                s,
                key,
                eventgroup_ids,
                events,
                response,
                selection,
                now,
            );
            let refusal = subscribe_refusal(s, key, eventgroup_ids, selection);
            &&& refusal is Some ==> {
                &&& t == (StateView { next_subscription_id: t.next_subscription_id, ..s })
                &&& subscribe_command_step(
                    s,
                    key,
                    eventgroup_ids,
                    events,
                    response,
                    selection,
                ) == StepView::Done
                &&& refusal_actions(response, refusal).len() == 1
            }
            &&& refusal is None ==> refusal_actions(response, refusal).len() == 0
            &&& eventgroup_ids.len() == 0 ==> refusal == Some(
                ErrorView::Config("At least one eventgroup must be specified"@),
            )
            &&& eventgroup_ids.len() > 0 && !has_key(s.discovered, key) ==> refusal == Some(
                ErrorView::ServiceUnavailable,
            )
        }),
{
}

/// The events of two subscriptions to one service are not mixed up. Over TCP a further
/// subscription gets a connection slot that no subscription to the service uses. Over UDP
/// only the first subscription gets the request port as such, and a further one shares a port
/// only with other services.
pub proof fn subscriptions_are_kept_apart(
    s: StateView,
    key: ServiceKey,
    selection: Option<TransportSelection>,
    c: ClientSubscription,
)
    requires
        s.subscriptions.len() <= u64::MAX,
        s.subscriptions.contains(c),
        c.service == key,
    ensures
        match subscribe_path(s, key, selection) {
            Ok(SubscribePath::Connect { conn_key, .. }) => c.tcp_conn_key != conn_key,
            Ok(SubscribePath::First { .. }) => false,
            Ok(SubscribePath::Reuse { endpoint }) => !s.subscription_endpoint_usage.contains(
                EndpointUse {
                    port: endpoint.port,
                    service_id: key.service_id,
                    instance_id: key.instance_id,
                },
            ),
            _ => true,
        },
{
    next_slot_is_free(s.subscriptions, key);
    let i = choose|i: int| 0 <= i < s.subscriptions.len() && s.subscriptions[i] == c;
    assert(s.subscriptions[i].service == key);
    assert(slots_in_use(s.subscriptions, key).contains(c.tcp_conn_key));
    assert(is_subscribed(s.subscriptions, key));
    crate::runtime::state::reusable_port_is_free(s, key.service_id, key.instance_id);
}

proof fn lemma_subscription_fields(
    s: StateView,
    r: RequestView,
    endpoint: SocketAddr,
    dedicated: bool,
    conn_key: u64,
    transport: Transport,
    now: u64,
)
    ensures
        ({
            let t = after_subscription(
                s,
                r,
                endpoint,
                dedicated,
                conn_key,
                transport,
                now,
            );
            &&& t.subscriptions == s.subscriptions + new_subscriptions(
                r,
                endpoint,
                dedicated,
                conn_key,
            )
            &&& t.subscription_endpoint_usage == s.port_registered(
                endpoint.port,
                r.key.service_id,
                r.key.instance_id,
            ).subscription_endpoint_usage
        }),
{
}

proof fn lemma_unsubscribe_fields(
    t: StateView,
    key: ServiceKey,
    eventgroup_id: u16,
    subscription_id: u64,
    now: u64,
)
    ensures
        ({
            let u = after_unsubscribe(t, key, eventgroup_id, subscription_id, now);
            let v = subscription_removed(t, key, eventgroup_id, subscription_id);
            &&& u.subscriptions == v.subscriptions
            &&& u.subscription_endpoint_usage == v.subscription_endpoint_usage
        }),
{
}

/// The state after a handle's subscription to the first `n` of its eventgroups has ended, one
/// after the other.
pub open spec fn all_ended(
    t: StateView,
    key: ServiceKey,
    eventgroup_ids: Seq<u16>,
    subscription_id: u64,
    now: u64,
    n: int,
) -> StateView
    decreases n,
{
    if n <= 0 {
        t
    } else {
        after_unsubscribe(
            all_ended(t, key, eventgroup_ids, subscription_id, now, n - 1),
            key,
            eventgroup_ids[n - 1],
            subscription_id,
            now,
        )
    }
}

/// Wants what is no subscription to one of the eventgroups under the identifier.
spec fn outside(key: ServiceKey, groups: Seq<u16>, subscription_id: u64) -> spec_fn(
    ClientSubscription,
) -> bool {
    |c: ClientSubscription|
        !(c.service == key && c.subscription_id == subscription_id && groups.contains(
            c.eventgroup_id,
        ))
}

proof fn lemma_ended_subscriptions(
    t: StateView,
    key: ServiceKey,
    groups: Seq<u16>,
    id: u64,
    now: u64,
    n: int,
)
    requires
        0 <= n <= groups.len(),
    ensures
        all_ended(t, key, groups, id, now, n).subscriptions == t.subscriptions.filter(
            outside(key, groups.take(n), id),
        ),
    decreases n,
{
    let p_n = outside(key, groups.take(n), id);
    if n == 0 {
        assert forall|i: int| 0 <= i < t.subscriptions.len() implies p_n(
            #[trigger] t.subscriptions[i],
        ) by {}
        crate::rows::lemma_filter_all(t.subscriptions, p_n);
    } else {
        lemma_ended_subscriptions(t, key, groups, id, now, n - 1);
        let before = all_ended(t, key, groups, id, now, n - 1);
        let p = outside(key, groups.take(n - 1), id);
        let q = not_subscription(key, groups[n - 1], id);
        lemma_unsubscribe_fields(before, key, groups[n - 1], id, now);
        crate::rows::lemma_filter_filter(t.subscriptions, p, q);
        crate::rows::lemma_take_step(groups, n - 1);
        assert forall|c: ClientSubscription| #[trigger] crate::rows::both(p, q)(c) == p_n(c) by {
            let g = c.eventgroup_id;
            let (more, fewer) = (groups.take(n), groups.take(n - 1));
            if more.contains(g) {
                let i = choose|i: int| 0 <= i < more.len() && more[i] == g;
                if i < n - 1 {
                    assert(fewer[i] == g);
                }
            }
            if fewer.contains(g) {
                let i = choose|i: int| 0 <= i < fewer.len() && fewer[i] == g;
                assert(more[i] == g);
            }
            assert(groups.take(n)[n - 1] == groups[n - 1]);
        }
        assert(crate::rows::both(p, q) =~= p_n);
    }
}

proof fn lemma_subscription_found(
    subs: Seq<ClientSubscription>,
    key: ServiceKey,
    eventgroup_id: u16,
    id: u64,
    i: int,
)
    requires
        0 <= i <= subs.len(),
    ensures
        match subscription_meant(subs, key, eventgroup_id, id, i) {
            Some(c) => exists|j: int|
                i <= j < subs.len() && is_subscription(#[trigger] subs[j], key, eventgroup_id, id)
                    && subs[j] == c,
            None => forall|j: int|
                i <= j < subs.len() ==> !is_subscription(
                    #[trigger] subs[j],
                    key,
                    eventgroup_id,
                    id,
                ),
        },
    decreases subs.len() - i,
{
    if i < subs.len() && !is_subscription(subs[i], key, eventgroup_id, id) {
        lemma_subscription_found(subs, key, eventgroup_id, id, i + 1);
    }
}

/// The port is given up with the last subscription that uses it, and not before.
proof fn lemma_ended_ports(
    t: StateView,
    key: ServiceKey,
    groups: Seq<u16>,
    id: u64,
    now: u64,
    endpoint: SocketAddr,
    n: int,
)
    requires
        0 <= n <= groups.len(),
        port_in_use(t.subscriptions, key, endpoint.port),
        forall|j: int|
            0 <= j < t.subscriptions.len() && (#[trigger] t.subscriptions[j]).service == key
                && t.subscriptions[j].subscription_id == id
                ==> t.subscriptions[j].local_endpoint == endpoint,
    ensures
        ({
            let u = all_ended(t, key, groups, id, now, n);
            u.subscription_endpoint_usage == (if port_in_use(
                u.subscriptions,
                key,
                endpoint.port,
            ) {
                t.subscription_endpoint_usage
            } else {
                t.port_unregistered(
                    endpoint.port,
                    key.service_id,
                    key.instance_id,
                ).subscription_endpoint_usage
            })
        }),
    decreases n,
{
    if n > 0 {
        lemma_ended_ports(t, key, groups, id, now, endpoint, n - 1);
        lemma_ended_subscriptions(t, key, groups, id, now, n - 1);
        let before = all_ended(t, key, groups, id, now, n - 1);
        let subs = before.subscriptions;
        let g = groups[n - 1];
        lemma_unsubscribe_fields(before, key, g, id, now);
        lemma_subscription_found(subs, key, g, id, 0);
        match subscription_meant(subs, key, g, id, 0) {
            Some(c) => {
                let j = choose|j: int|
                    0 <= j < subs.len() && is_subscription(#[trigger] subs[j], key, g, id)
                        && subs[j] == c;
                assert(subs.contains(c));
                crate::rows::lemma_filter_contains(
                    t.subscriptions,
                    outside(key, groups.take(n - 1), id),
                    c,
                );
                let k = choose|k: int|
                    0 <= k < t.subscriptions.len() && t.subscriptions[k] == c;
                assert(t.subscriptions[k].local_endpoint == endpoint);
                assert(port_in_use(subs, key, endpoint.port));
            },
            None => {
                let q = not_subscription(key, g, id);
                assert forall|j: int| 0 <= j < subs.len() implies q(#[trigger] subs[j]) by {}
                crate::rows::lemma_filter_all(subs, q);
            },
        }
    }
}

/// A subscription that is made and ended, one eventgroup after the other, leaves the
/// subscriptions as they were; and where its port was not in use before, it is given up again.
pub proof fn ending_undoes_subscribing(
    s: StateView,
    r: RequestView,
    endpoint: SocketAddr,
    dedicated: bool,
    conn_key: u64,
    transport: Transport,
    now: u64,
    later: u64,
)
    requires
        s.wf(),
        r.eventgroup_ids.len() > 0,
        forall|j: int|
            0 <= j < s.subscriptions.len() ==> !((#[trigger] s.subscriptions[j]).service == r.key
                && s.subscriptions[j].subscription_id == r.subscription_id),
    ensures
        ({
            let t = after_subscription(
                s,
                r,
                endpoint,
                dedicated,
                conn_key,
                transport,
                now,
            );
            let u = all_ended(
                t,
                r.key,
                r.eventgroup_ids,
                r.subscription_id,
                later,
                r.eventgroup_ids.len() as int,
            );
            let used = EndpointUse {
                port: endpoint.port,
                service_id: r.key.service_id,
                instance_id: r.key.instance_id,
            };
            &&& t.subscriptions.len() == s.subscriptions.len() + r.eventgroup_ids.len()
            &&& u.subscriptions == s.subscriptions
            &&& !s.subscription_endpoint_usage.contains(used) && !port_in_use(
                s.subscriptions,
                r.key,
                endpoint.port,
            ) ==> u.subscription_endpoint_usage == s.subscription_endpoint_usage
        }),
{
    let t = after_subscription(s, r, endpoint, dedicated, conn_key, transport, now);
    let rows = new_subscriptions(r, endpoint, dedicated, conn_key);
    let groups = r.eventgroup_ids;
    let n = groups.len() as int;
    let (key, id) = (r.key, r.subscription_id);
    lemma_subscription_fields(s, r, endpoint, dedicated, conn_key, transport, now);
    lemma_ended_subscriptions(t, key, groups, id, later, n);
    assert(groups.take(n) =~= groups);
    let p = outside(key, groups, id);
    Seq::filter_distributes_over_add(s.subscriptions, rows, p);
    assert forall|j: int| 0 <= j < s.subscriptions.len() implies p(
        #[trigger] s.subscriptions[j],
    ) by {}
    crate::rows::lemma_filter_all(s.subscriptions, p);
    assert forall|j: int| 0 <= j < rows.len() implies !p(#[trigger] rows[j]) by {
        assert(groups.contains(groups[j]));
    }
    crate::rows::lemma_filter_none(rows, p);
    assert(s.subscriptions + Seq::<ClientSubscription>::empty() =~= s.subscriptions);
    assert(t.subscriptions[s.subscriptions.len() as int] == rows[0]);
    assert(port_in_use(t.subscriptions, key, endpoint.port));
    assert forall|j: int|
        0 <= j < t.subscriptions.len() && (#[trigger] t.subscriptions[j]).service == key
            && t.subscriptions[j].subscription_id == id implies t.subscriptions[j].local_endpoint
        == endpoint by {
        if j < s.subscriptions.len() {
            assert(t.subscriptions[j] == s.subscriptions[j]);
        } else {
            assert(t.subscriptions[j] == rows[j - s.subscriptions.len()]);
        }
    }
    lemma_ended_ports(t, key, groups, id, later, endpoint, n);
    let (port, service, instance) = (endpoint.port, key.service_id, key.instance_id);
    let used = EndpointUse { port, service_id: service, instance_id: instance };
    if !s.subscription_endpoint_usage.contains(used) {
        crate::runtime::state::port_registration_is_undone(s, port, service, instance);
        let registered = s.port_registered(port, service, instance);
        assert(t.port_unregistered(port, service, instance).subscription_endpoint_usage
            == registered.port_unregistered(port, service, instance).subscription_endpoint_usage);
    }
}

/// A subscription that a client asks for is accepted by a server that offers the service with
/// the same transport: the server sends events to the endpoint that the client has named, for
/// the lifetime that it asked for.
pub proof fn a_subscription_reaches_its_server(
    server: StateView,
    key: ServiceKey,
    eventgroup_ids: Seq<u16>,
    client: SocketAddr,
    sd_flags: u8,
    ttl: u32,
    transport: Transport,
    from: SocketAddr,
    now: u64,
    j: int,
)
    requires
        server.wf(),
        0 <= j < eventgroup_ids.len(),
        client.ip is V4,
        !client.ip.unspecified(),
        lookup(server.offered, key) matches Some(o) && (match transport {
            Transport::Udp => o.udp_endpoint is Some,
            Transport::Tcp => o.tcp_endpoint is Some,
        }),
    ensures
        ({
            let m = subscribe_message(
                key,
                eventgroup_ids,
                client.ip,
                client.port,
                sd_flags,
                ttl,
                transport,
            );
            let e = m.entries[j];
            let t = after_subscribe(server, e, m, from, now);
            &&& accepted(server, e, m) matches Some((_, ep, how)) && ep == client && how
                == transport
            &&& lookup(t.server_subscribers, slot_of(e, client)) == Some(
                ServerSubscription { transport, expires_at: expiry(ttl, now) },
            )
        }),
{
    let m = subscribe_message(
        key,
        eventgroup_ids,
        client.ip,
        client.port,
        sd_flags,
        ttl,
        transport,
    );
    let e = m.entries[j];
    subscription_names_its_endpoint(
        key,
        eventgroup_ids,
        client.ip,
        client.port,
        sd_flags,
        ttl,
        transport,
        j,
    );
    assert(entry_key(e) == key);
    assert(m.options_of(e) =~= m.options);
    reveal_with_fuel(crate::discovery::first_endpoint, 2);
    let sub = ServerSubscription { transport, expires_at: expiry(ttl, now) };
    lemma_put(server.server_subscribers, slot_of(e, client), sub);
}

/// All of the actions hand something to a handle.
pub open spec fn only_deliveries(acts: Seq<ActionView>) -> bool {
    forall|i: int| 0 <= i < acts.len() ==> (#[trigger] acts[i]) is Deliver
}

proof fn lemma_acks_are_delivered(
    s: StateView,
    acts: Seq<ActionView>,
    entry: SdEntry,
    waiting: Seq<PendingRow>,
    n: int,
    subscription_id: u64,
    to: ChannelId,
)
    requires
        distinct(s.multi),
        !has_key(s.multi, multi_key(entry, subscription_id)),
        0 <= n <= waiting.len(),
    ensures
        ({
            let (t, a) = acked_many(s, acts, entry, waiting, n);
            &&& distinct(t.multi)
            &&& !has_key(t.multi, multi_key(entry, subscription_id))
            &&& only_deliveries(acts) ==> only_deliveries(a)
            &&& forall|i: int|
                0 <= i < n && (#[trigger] waiting[i]).1 == (PendingSubscription {
                    subscription_id,
                    response: Some(to),
                }) ==> a.contains(
                    ActionView::Deliver {
                        to,
                        message: DeliveryView::Subscribed(Ok(subscription_id)),
                    },
                )
        }),
    decreases n,
{
    if n > 0 {
        lemma_acks_are_delivered(s, acts, entry, waiting, n - 1, subscription_id, to);
        let (t, a) = acked_many(s, acts, entry, waiting, n - 1);
        let p = waiting[n - 1].1;
        let (_, b) = acked_one(t, a, entry, p);
        let key = multi_key(entry, p.subscription_id);
        lemma_without(t.multi, key);
        if let Some(multi) = lookup(t.multi, key) {
            let marked = MultiView { acked: multi.acked.insert(entry.eventgroup_id), ..multi };
            lemma_put(t.multi, key, marked);
        }
        let told = ActionView::Deliver {
            to,
            message: DeliveryView::Subscribed(Ok(subscription_id)),
        };
        assert forall|x: ActionView| a.contains(x) implies b.contains(x) by {
            let i = choose|i: int| 0 <= i < a.len() && a[i] == x;
            assert(b[i] == x);
        }
        let whole = multi_key(entry, subscription_id);
        assert(lookup(t.multi, whole) is None);
        assert(lookup(without(t.multi, key), whole) is None);
        if p == (PendingSubscription { subscription_id, response: Some(to) }) {
            assert(b[a.len() as int] == told);
        }
        if only_deliveries(acts) {
            assert forall|i: int| 0 <= i < b.len() implies (#[trigger] b[i]) is Deliver by {
                if i < a.len() {
                    assert(b[i] == a[i]);
                }
            }
        }
        assert forall|i: int|
            0 <= i < n && (#[trigger] waiting[i]).1 == (PendingSubscription {
                subscription_id,
                response: Some(to),
            }) implies b.contains(told) by {
            if i < n - 1 {
                assert(a.contains(told));
            }
        }
    }
}

/// The acknowledgement of a subscription completes it: the handle of a subscription to this one
/// eventgroup that awaits it hears of the success, whatever else is awaited, and the wait is
/// over.
pub proof fn an_acknowledgement_completes_the_subscription(
    client: StateView,
    acts: Seq<ActionView>,
    asked: SdEntry,
    sd_flags: u8,
    subscription_id: u64,
    to: ChannelId,
)
    requires
        client.wf(),
        client.pending_subscriptions.contains(
            (pending_key(asked), PendingSubscription { subscription_id, response: Some(to) }),
        ),
        !has_key(client.multi, multi_key(asked, subscription_id)),
    ensures
        ({
            let answer = ack_message(asked, sd_flags).entries[0];
            let (t, a) = after_ack(client, acts, answer);
            &&& a.contains(
                ActionView::Deliver {
                    to,
                    message: DeliveryView::Subscribed(Ok(subscription_id)),
                },
            )
            &&& only_deliveries(acts) ==> only_deliveries(a)
            &&& !is_awaited(t.pending_subscriptions, pending_key(asked))
        }),
{
    let answer = ack_message(asked, sd_flags).entries[0];
    let key = pending_key(asked);
    assert(pending_key(answer) == key);
    let row = (key, PendingSubscription { subscription_id, response: Some(to) });
    let pending = client.pending_subscriptions;
    crate::rows::lemma_filter_contains(pending, awaiting(key), row);
    let waiting = pending.filter(awaiting(key));
    let i = choose|i: int| 0 <= i < waiting.len() && waiting[i] == row;
    let s = StateView {
        pending_subscriptions: pending.filter(awaiting_other(key)),
        ..client
    };
    lemma_acks_are_delivered(
        s,
        acts,
        answer,
        waiting,
        waiting.len() as int,
        subscription_id,
        to,
    );
    assert(waiting[i].1 == row.1);
    an_answer_ends_the_wait(client, acts, answer);
}

} // verus!
