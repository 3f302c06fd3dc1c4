//! What holds of a subscription from its command to its last acknowledgement.

use crate::config::{Transport, TransportSelection};
use crate::discovery::SdEntry;
use crate::error::ErrorView;
use crate::message::{ChannelId, DeliveryView};
use crate::net::SocketAddr;
use crate::runtime::action::ActionView;
use crate::runtime::client_concurrent::{after_update, UpdateView};
use crate::runtime::event_loop::{binding_handled, connection_handled};
use crate::runtime::sd_client::{
    acked_many, acked_one, after_ack, after_nack, all_acked, awaiting, awaiting_other, multi_key,
    nacked_many, not_refused, pending_key, report, PendingRow,
};
use crate::runtime::sd_server::entry_key;
use crate::runtime::state::{
    MultiEventgroupSubscriptionKey, MultiView, PendingSubscription, ServiceKey, StateView,
};
use crate::runtime::subscribe::{
    after_subscribe_command, after_subscription, multi_key_for, new_pending, pending_key_for,
    request_of, subscribe_command_step, subscribe_path, subscribe_refusal, subscription_id_used,
    subscription_tracked, RequestView, StepView, SubscribePath,
};
use crate::runtime::subscription_laws::{
    a_refusal_fails_the_whole_subscription, nothing_left, waits,
};
use crate::table::{distinct, lemma_put, lemma_without, lookup};
use vstd::prelude::*;

verus! {

/// The state and the actions after the first `n` of the acknowledgements, which come one after
/// the other.
pub open spec fn acked_in_turn(t: StateView, entries: Seq<SdEntry>, n: int) -> (
    StateView,
    Seq<ActionView>,
)
    decreases n,
{
    if n <= 0 {
        (t, Seq::empty())
    } else {
        let (u, acts) = acked_in_turn(t, entries, n - 1);
        after_ack(u, acts, entries[n - 1])
    }
}

/// The eventgroups of a service that the first `n` entries acknowledge.
pub open spec fn acknowledged(key: ServiceKey, entries: Seq<SdEntry>, n: int) -> Set<u16>
    decreases n,
{
    if n <= 0 {
        Set::empty()
    } else if entry_key(entries[n - 1]) == key {
        acknowledged(key, entries, n - 1).insert(entries[n - 1].eventgroup_id)
    } else {
        acknowledged(key, entries, n - 1)
    }
}

/// Wants what is delivered to a channel.
pub open spec fn delivered_to(to: ChannelId) -> spec_fn(ActionView) -> bool {
    |a: ActionView| a matches ActionView::Deliver { to: other, .. } && other == to
}

/// Every eventgroup is in the set.
pub open spec fn covers(acked: Set<u16>, eventgroup_ids: Seq<u16>) -> bool {
    forall|i: int| 0 <= i < eventgroup_ids.len() ==> acked.contains(#[trigger] eventgroup_ids[i])
}

/// No subscription that is under way reports to the channel.
pub open spec fn reports_nowhere(s: StateView, to: ChannelId) -> bool {
    &&& rows_report_elsewhere(s.pending_subscriptions, to)
    &&& forall|key: MultiEventgroupSubscriptionKey| #[trigger]
        lookup(s.multi, key) is Some ==> lookup(s.multi, key)->0.response != Some(to)
}

/// No row reports to the channel.
pub open spec fn rows_report_elsewhere(rows: Seq<PendingRow>, to: ChannelId) -> bool {
    forall|i: int| 0 <= i < rows.len() ==> (#[trigger] rows[i]).1.response != Some(to)
}

/// The tracker of a subscription stands until the last of its eventgroups is acknowledged,
/// and nothing else reports to the subscription's handle.
spec fn tracks(s: StateView, r: RequestView, acked: Set<u16>) -> bool {
    &&& distinct(s.multi)
    &&& forall|key: MultiEventgroupSubscriptionKey|
        key != multi_key_for(r) && #[trigger] lookup(s.multi, key) is Some ==> lookup(
            s.multi,
            key,
        )->0.response != Some(r.response)
    &&& match lookup(s.multi, multi_key_for(r)) {
        Some(m) => {
            &&& !covers(acked, r.eventgroup_ids)
            &&& m.eventgroup_ids == r.eventgroup_ids
            &&& m.response == Some(r.response)
            &&& forall|i: int|
                0 <= i < r.eventgroup_ids.len() ==> m.acked.contains(
                    #[trigger] r.eventgroup_ids[i],
                ) == acked.contains(r.eventgroup_ids[i])
        },
        None => covers(acked, r.eventgroup_ids),
    }
}

/// Every eventgroup that is not acknowledged yet still awaits its answer.
spec fn awaits_rest(rows: Seq<PendingRow>, r: RequestView, acked: Set<u16>) -> bool {
    forall|i: int|
        0 <= i < r.eventgroup_ids.len() && !acked.contains(#[trigger] r.eventgroup_ids[i])
            ==> exists|row: PendingRow| #[trigger]
            rows.contains(row) && row.0 == pending_key_for(r.key, r.eventgroup_ids[i])
                && row.1.subscription_id == r.subscription_id
}

/// What the handle of a subscription hears.
pub open spec fn heard(acts: Seq<ActionView>, to: ChannelId) -> Seq<ActionView> {
    acts.filter(delivered_to(to))
}

/// The success of a subscription.
pub open spec fn success(r: RequestView) -> ActionView {
    ActionView::Deliver {
        to: r.response,
        message: DeliveryView::Subscribed(Ok(r.subscription_id)),
    }
}

/// What the handle of a subscription has heard once these eventgroups are acknowledged.
pub open spec fn owed(r: RequestView, acked: Set<u16>) -> Seq<ActionView> {
    if covers(acked, r.eventgroup_ids) {
        seq![success(r)]
    } else {
        Seq::empty()
    }
}

proof fn lemma_heard_report(
    acts: Seq<ActionView>,
    response: Option<u64>,
    id: u64,
    to: ChannelId,
)
    ensures
        heard(acts + report(response, Ok(id)), to) == if response == Some(to) {
            heard(acts, to).push(
                ActionView::Deliver { to, message: DeliveryView::Subscribed(Ok(id)) },
            )
        } else {
            heard(acts, to)
        },
{
    match response {
        Some(other) => {
            let a = ActionView::Deliver {
                to: other,
                message: DeliveryView::Subscribed(Ok(id)),
            };
            assert(acts + report(response, Ok(id)) =~= acts.push(a));
            crate::rows::lemma_filter_push(acts, a, delivered_to(to));
        },
        None => {
            assert(acts + report(response, Ok(id)) =~= acts);
        },
    }
}

/// The acknowledged eventgroups once a waiting row was acknowledged.
spec fn with_row(
    r: RequestView,
    acked: Set<u16>,
    entry: SdEntry,
    p: PendingSubscription,
) -> Set<u16> {
    if multi_key(entry, p.subscription_id) == multi_key_for(r) {
        acked.insert(entry.eventgroup_id)
    } else {
        acked
    }
}

proof fn lemma_one_acknowledged(
    s: StateView,
    acts: Seq<ActionView>,
    r: RequestView,
    acked: Set<u16>,
    entry: SdEntry,
    p: PendingSubscription,
)
    requires
        tracks(s, r, acked),
        p.response != Some(r.response),
        heard(acts, r.response) == owed(r, acked),
    ensures
        ({
            let (t, a) = acked_one(s, acts, entry, p);
            &&& tracks(t, r, with_row(r, acked, entry, p))
            &&& heard(a, r.response) == owed(r, with_row(r, acked, entry, p))
            &&& t.pending_subscriptions == s.pending_subscriptions
        }),
{
    let key = multi_key(entry, p.subscription_id);
    let after = with_row(r, acked, entry, p);
    lemma_heard_report(acts, p.response, p.subscription_id, r.response);
    match lookup(s.multi, key) {
        Some(multi) => {
            let marked = MultiView { acked: multi.acked.insert(entry.eventgroup_id), ..multi };
            lemma_without(s.multi, key);
            lemma_put(s.multi, key, marked);
            lemma_heard_report(acts, multi.response, p.subscription_id, r.response);
            if key == multi_key_for(r) {
                assert(all_acked(marked) == covers(after, r.eventgroup_ids)) by {
                    if all_acked(marked) {
                        assert forall|i: int| 0 <= i < r.eventgroup_ids.len() implies after.contains(
                            #[trigger] r.eventgroup_ids[i],
                        ) by {
                            assert(marked.acked.contains(marked.eventgroup_ids[i]));
                        }
                    }
                    if covers(after, r.eventgroup_ids) {
                        assert forall|i: int| 0 <= i < marked.eventgroup_ids.len() implies
                            marked.acked.contains(#[trigger] marked.eventgroup_ids[i]) by {
                            assert(after.contains(r.eventgroup_ids[i]));
                        }
                    }
                }
                assert(Seq::<ActionView>::empty().push(success(r)) =~= seq![success(r)]);
            }
        },
        None => {
            if key == multi_key_for(r) {
                assert(covers(after, r.eventgroup_ids));
            }
        },
    }
}

/// The acknowledged eventgroups once the first `n` waiting rows were acknowledged.
spec fn with_rows(
    r: RequestView,
    acked: Set<u16>,
    entry: SdEntry,
    waiting: Seq<PendingRow>,
    n: int,
) -> Set<u16> {
    if entry_key(entry) == r.key && waits(waiting, r.subscription_id, n) {
        acked.insert(entry.eventgroup_id)
    } else {
        acked
    }
}

proof fn lemma_rows_acknowledged(
    s: StateView,
    acts: Seq<ActionView>,
    r: RequestView,
    acked: Set<u16>,
    entry: SdEntry,
    waiting: Seq<PendingRow>,
    n: int,
)
    requires
        0 <= n <= waiting.len(),
        tracks(s, r, acked),
        rows_report_elsewhere(waiting, r.response),
        heard(acts, r.response) == owed(r, acked),
    ensures
        ({
            let (t, a) = acked_many(s, acts, entry, waiting, n);
            &&& tracks(t, r, with_rows(r, acked, entry, waiting, n))
            &&& heard(a, r.response) == owed(r, with_rows(r, acked, entry, waiting, n))
            &&& t.pending_subscriptions == s.pending_subscriptions
        }),
    decreases n,
{
    if n > 0 {
        lemma_rows_acknowledged(s, acts, r, acked, entry, waiting, n - 1);
        let (t, a) = acked_many(s, acts, entry, waiting, n - 1);
        let before = with_rows(r, acked, entry, waiting, n - 1);
        let p = waiting[n - 1].1;
        lemma_one_acknowledged(t, a, r, before, entry, p);
        let id = r.subscription_id;
        if waits(waiting, id, n - 1) {
            assert(waits(waiting, id, n));
        }
        if p.subscription_id == id {
            assert(waits(waiting, id, n));
        }
        assert(with_row(r, before, entry, p) =~= with_rows(r, acked, entry, waiting, n));
    }
}

proof fn lemma_rest_awaited(
    rows: Seq<PendingRow>,
    r: RequestView,
    acked: Set<u16>,
    entry: SdEntry,
)
    requires
        awaits_rest(rows, r, acked),
    ensures
        awaits_rest(
            rows.filter(awaiting_other(pending_key(entry))),
            r,
            if entry_key(entry) == r.key {
                acked.insert(entry.eventgroup_id)
            } else {
                acked
            },
        ),
{
    let after = if entry_key(entry) == r.key {
        acked.insert(entry.eventgroup_id)
    } else {
        acked
    };
    let left = rows.filter(awaiting_other(pending_key(entry)));
    assert forall|i: int|
        0 <= i < r.eventgroup_ids.len() && !after.contains(
            #[trigger] r.eventgroup_ids[i],
        ) implies exists|row: PendingRow| #[trigger]
        left.contains(row) && row.0 == pending_key_for(r.key, r.eventgroup_ids[i])
            && row.1.subscription_id == r.subscription_id by {
        let row = choose|row: PendingRow| #[trigger]
            rows.contains(row) && row.0 == pending_key_for(r.key, r.eventgroup_ids[i])
                && row.1.subscription_id == r.subscription_id;
        crate::rows::lemma_filter_contains(rows, awaiting_other(pending_key(entry)), row);
        assert(left.contains(row));
    }
}

proof fn lemma_rows_kept(rows: Seq<PendingRow>, p: spec_fn(PendingRow) -> bool, to: ChannelId)
    requires
        rows_report_elsewhere(rows, to),
    ensures
        rows_report_elsewhere(rows.filter(p), to),
{
    let left = rows.filter(p);
    assert forall|i: int| 0 <= i < left.len() implies (#[trigger] left[i]).1.response != Some(
        to,
    ) by {
        assert(left.contains(left[i]));
        crate::rows::lemma_filter_contains(rows, p, left[i]);
        let j = choose|j: int| 0 <= j < rows.len() && rows[j] == left[i];
        assert(rows[j].1.response != Some(to));
    }
}

/// A subscription is tracked, and its handle has heard what it is owed.
spec fn under_way(s: StateView, acts: Seq<ActionView>, r: RequestView, acked: Set<u16>) -> bool {
    &&& tracks(s, r, acked)
    &&& awaits_rest(s.pending_subscriptions, r, acked)
    &&& rows_report_elsewhere(s.pending_subscriptions, r.response)
    &&& heard(acts, r.response) == owed(r, acked)
}

proof fn lemma_covered_alike(r: RequestView, a: Set<u16>, b: Set<u16>)
    requires
        forall|i: int|
            0 <= i < r.eventgroup_ids.len() ==> a.contains(#[trigger] r.eventgroup_ids[i])
                == b.contains(r.eventgroup_ids[i]),
    ensures
        covers(a, r.eventgroup_ids) == covers(b, r.eventgroup_ids),
        owed(r, a) == owed(r, b),
        forall|s: StateView| #[trigger] tracks(s, r, a) ==> tracks(s, r, b),
{
    if covers(a, r.eventgroup_ids) {
        assert(covers(b, r.eventgroup_ids));
    }
    if covers(b, r.eventgroup_ids) {
        assert(covers(a, r.eventgroup_ids));
    }
}

proof fn lemma_acknowledgement(
    s: StateView,
    acts: Seq<ActionView>,
    r: RequestView,
    acked: Set<u16>,
    entry: SdEntry,
)
    requires
        under_way(s, acts, r, acked),
    ensures
        ({
            let (t, a) = after_ack(s, acts, entry);
            under_way(
                t,
                a,
                r,
                if entry_key(entry) == r.key {
                    acked.insert(entry.eventgroup_id)
                } else {
                    acked
                },
            )
        }),
{
    let rows = s.pending_subscriptions;
    let key = pending_key(entry);
    let waiting = rows.filter(awaiting(key));
    let n = waiting.len() as int;
    let left = StateView { pending_subscriptions: rows.filter(awaiting_other(key)), ..s };
    let after = if entry_key(entry) == r.key {
        acked.insert(entry.eventgroup_id)
    } else {
        acked
    };
    lemma_rows_kept(rows, awaiting(key), r.response);
    lemma_rows_kept(rows, awaiting_other(key), r.response);
    lemma_rest_awaited(rows, r, acked, entry);
    lemma_rows_acknowledged(left, acts, r, acked, entry, waiting, n);
    let reached = with_rows(r, acked, entry, waiting, n);
    assert forall|i: int| 0 <= i < r.eventgroup_ids.len() implies reached.contains(
        #[trigger] r.eventgroup_ids[i],
    ) == after.contains(r.eventgroup_ids[i]) by {
        let g = r.eventgroup_ids[i];
        if entry_key(entry) == r.key && g == entry.eventgroup_id && !acked.contains(g) {
            let row = choose|row: PendingRow| #[trigger]
                rows.contains(row) && row.0 == pending_key_for(r.key, r.eventgroup_ids[i])
                    && row.1.subscription_id == r.subscription_id;
            crate::rows::lemma_filter_contains(rows, awaiting(key), row);
            let j = choose|j: int| 0 <= j < waiting.len() && waiting[j] == row;
            assert(waiting[j].1.subscription_id == r.subscription_id);
            assert(waits(waiting, r.subscription_id, n));
        }
    }
    lemma_covered_alike(r, reached, after);
}

proof fn lemma_all_acknowledgements(
    t: StateView,
    r: RequestView,
    entries: Seq<SdEntry>,
    n: int,
)
    requires
        0 <= n <= entries.len(),
        under_way(t, Seq::empty(), r, Set::empty()),
    ensures
        ({
            let (u, a) = acked_in_turn(t, entries, n);
            under_way(u, a, r, acknowledged(r.key, entries, n))
        }),
    decreases n,
{
    if n > 0 {
        lemma_all_acknowledgements(t, r, entries, n - 1);
        let (u, a) = acked_in_turn(t, entries, n - 1);
        lemma_acknowledgement(u, a, r, acknowledged(r.key, entries, n - 1), entries[n - 1]);
    }
}

proof fn lemma_begins(
    s: StateView,
    r: RequestView,
    endpoint: SocketAddr,
    dedicated: bool,
    conn_key: u64,
)
    requires
        distinct(s.multi),
        r.eventgroup_ids.len() > 1,
        reports_nowhere(s, r.response),
    ensures
        under_way(
            subscription_tracked(s, r, endpoint, dedicated, conn_key),
            Seq::empty(),
            r,
            Set::empty(),
        ),
{
    let t = subscription_tracked(s, r, endpoint, dedicated, conn_key);
    let rows = t.pending_subscriptions;
    let new = new_pending(r, true);
    let acked = Set::<u16>::empty();
    assert(rows == s.pending_subscriptions + new);
    lemma_put(
        s.multi,
        multi_key_for(r),
        MultiView {
            eventgroup_ids: r.eventgroup_ids,
            acked,
            response: Some(r.response),
        },
    );
    assert(!acked.contains(r.eventgroup_ids[0]));
    assert(!covers(acked, r.eventgroup_ids));
    assert(tracks(t, r, acked));
    assert forall|i: int|
        0 <= i < r.eventgroup_ids.len() && !acked.contains(
            #[trigger] r.eventgroup_ids[i],
        ) implies exists|row: PendingRow| #[trigger]
        rows.contains(row) && row.0 == pending_key_for(r.key, r.eventgroup_ids[i])
            && row.1.subscription_id == r.subscription_id by {
        assert(rows[s.pending_subscriptions.len() + i] == new[i]);
        assert(rows.contains(new[i]));
    }
    assert(heard(Seq::empty(), r.response) =~= Seq::<ActionView>::empty()) by {
        reveal(Seq::filter);
    }
}

proof fn lemma_begun_alike(t: StateView, u: StateView, r: RequestView)
    requires
        under_way(t, Seq::empty(), r, Set::empty()),
        u.multi == t.multi,
        u.pending_subscriptions == t.pending_subscriptions,
    ensures
        under_way(u, Seq::empty(), r, Set::empty()),
{
}

proof fn lemma_subscription_begins(
    s: StateView,
    r: RequestView,
    endpoint: SocketAddr,
    dedicated: bool,
    conn_key: u64,
    transport: Transport,
    now: u64,
)
    requires
        distinct(s.multi),
        r.eventgroup_ids.len() > 1,
        reports_nowhere(s, r.response),
    ensures
        under_way(
            after_subscription(s, r, endpoint, dedicated, conn_key, transport, now),
            Seq::empty(),
            r,
            Set::empty(),
        ),
{
    let registered = s.port_registered(endpoint.port, r.key.service_id, r.key.instance_id);
    lemma_begins(registered, r, endpoint, dedicated, conn_key);
    lemma_begun_alike(
        subscription_tracked(registered, r, endpoint, dedicated, conn_key),
        after_subscription(s, r, endpoint, dedicated, conn_key, transport, now),
        r,
    );
}

/// The state once a subscription has been asked for and, where it needs a connection or
/// a socket of its own, that was opened at a local address.
pub open spec fn subscribed_from(
    s: StateView,
    key: ServiceKey,
    eventgroup_ids: Seq<u16>,
    events: ChannelId,
    response: ChannelId,
    selection: Option<TransportSelection>,
    now: u64,
    local: SocketAddr,
    later: u64,
) -> StateView {
    let t = after_subscribe_command(s, key, eventgroup_ids, events, response, selection, now);
    match subscribe_command_step(s, key, eventgroup_ids, events, response, selection) {
        StepView::Done => t,
        StepView::ConnectTcp { conn_key, request, .. } => connection_handled(
            t,
            request,
            conn_key,
            Ok(local),
            later,
        ).0,
        StepView::BindUdp { ip, request, .. } => binding_handled(
            t,
            request,
            ip,
            Ok(local),
            later,
        ).0,
    }
}

proof fn lemma_command_begins(
    s: StateView,
    key: ServiceKey,
    eventgroup_ids: Seq<u16>,
    events: ChannelId,
    response: ChannelId,
    selection: Option<TransportSelection>,
    now: u64,
    local: SocketAddr,
    later: u64,
)
    requires
        s.wf(),
        eventgroup_ids.len() > 1,
        subscribe_refusal(s, key, eventgroup_ids, selection) is None,
        reports_nowhere(s, response),
    ensures
        under_way(
            subscribed_from(
                s,
                key,
                eventgroup_ids,
                events,
                response,
                selection,
                now,
                local,
                later,
            ),
            Seq::empty(),
            request_of(s, key, eventgroup_ids, events, response, selection),
            Set::empty(),
        ),
{
    let r = request_of(s, key, eventgroup_ids, events, response, selection);
    let used = subscription_id_used(s);
    assert(reports_nowhere(used, response));
    match subscribe_path(s, key, selection) {
        Ok(SubscribePath::Connect { conn_key, .. }) => {
            lemma_subscription_begins(
                used,
                r,
                local,
                false,
                conn_key,
                Transport::Tcp,
                later,
            );
        },
        Ok(SubscribePath::Bind { ip, .. }) => {
            lemma_subscription_begins(
                used,
                r,
                SocketAddr { ip, port: local.port },
                true,
                0,
                Transport::Udp,
                later,
            );
        },
        Ok(SubscribePath::First { endpoint })
        | Ok(SubscribePath::Reuse { endpoint }) => {
            lemma_subscription_begins(
                used,
                r,
                endpoint,
                false,
                0,
                Transport::Udp,
                now,
            );
        },
        Err(_) => {},
    }
}

/// A subscription to several eventgroups is all or nothing, over every transport and whatever
/// else is subscribed to: in whichever order the acknowledgements arrive, its handle hears
/// nothing until every eventgroup is acknowledged, and then of its success, once.
pub proof fn success_needs_every_acknowledgement(
    s: StateView,
    key: ServiceKey,
    eventgroup_ids: Seq<u16>,
    events: ChannelId,
    response: ChannelId,
    selection: Option<TransportSelection>,
    now: u64,
    local: SocketAddr,
    later: u64,
    entries: Seq<SdEntry>,
    n: int,
)
    requires
        s.wf(),
        eventgroup_ids.len() > 1,
        subscribe_refusal(s, key, eventgroup_ids, selection) is None,
        reports_nowhere(s, response),
        0 <= n <= entries.len(),
    ensures
        ({
            let t = subscribed_from(
                s,
                key,
                eventgroup_ids,
                events,
                response,
                selection,
                now,
                local,
                later,
            );
            let heard = heard(acked_in_turn(t, entries, n).1, response);
            if covers(acknowledged(key, entries, n), eventgroup_ids) {
                heard == seq![
                    ActionView::Deliver {
                        to: response,
                        message: DeliveryView::Subscribed(Ok(s.next_subscription_id)),
                    },
                ]
            } else {
                heard.len() == 0
            }
        }),
{
    let r = request_of(
        s,
        key,
        eventgroup_ids,
        events,
        response,
        selection,
    );
    let t = subscribed_from(
        s,
        key,
        eventgroup_ids,
        events,
        response,
        selection,
        now,
        local,
        later,
    );
    lemma_command_begins(s, key, eventgroup_ids, events, response, selection, now, local, later);
    lemma_all_acknowledgements(t, r, entries, n);
}

proof fn lemma_heard_rejection(acts: Seq<ActionView>, response: Option<u64>, to: ChannelId)
    ensures
        heard(acts + report(response, Err(ErrorView::SubscriptionRejected)), to) == if response
            == Some(to) {
            heard(acts, to).push(rejection(to))
        } else {
            heard(acts, to)
        },
{
    let reported = report(response, Err(ErrorView::SubscriptionRejected));
    match response {
        Some(other) => {
            assert(acts + reported =~= acts.push(rejection(other)));
            crate::rows::lemma_filter_push(acts, rejection(other), delivered_to(to));
        },
        None => {
            assert(acts + reported =~= acts);
        },
    }
}

/// The failure of a subscription that the server has refused.
pub open spec fn rejection(to: ChannelId) -> ActionView {
    ActionView::Deliver {
        to,
        message: DeliveryView::Subscribed(Err(ErrorView::SubscriptionRejected)),
    }
}

proof fn lemma_rows_refused(
    s: StateView,
    acts: Seq<ActionView>,
    r: RequestView,
    acked: Set<u16>,
    entry: SdEntry,
    waiting: Seq<PendingRow>,
    n: int,
)
    requires
        0 <= n <= waiting.len(),
        tracks(s, r, acked),
        !covers(acked, r.eventgroup_ids),
        entry_key(entry) == r.key,
        rows_report_elsewhere(waiting, r.response),
        heard(acts, r.response).len() == 0,
    ensures
        ({
            let (t, a) = nacked_many(s, acts, entry, waiting, n);
            &&& distinct(t.multi)
            &&& forall|key: MultiEventgroupSubscriptionKey|
                key != multi_key_for(r) && #[trigger] lookup(t.multi, key) is Some ==> lookup(
                    t.multi,
                    key,
                )->0.response != Some(r.response)
            &&& if waits(waiting, r.subscription_id, n) {
                &&& lookup(t.multi, multi_key_for(r)) is None
                &&& heard(a, r.response) == seq![rejection(r.response)]
            } else {
                &&& lookup(t.multi, multi_key_for(r)) == lookup(s.multi, multi_key_for(r))
                &&& heard(a, r.response).len() == 0
            }
        }),
    decreases n,
{
    if n > 0 {
        lemma_rows_refused(s, acts, r, acked, entry, waiting, n - 1);
        let (t, a) = nacked_many(s, acts, entry, waiting, n - 1);
        let p = waiting[n - 1].1;
        let key = multi_key(entry, p.subscription_id);
        let id = r.subscription_id;
        lemma_without(t.multi, key);
        lemma_heard_rejection(a, p.response, r.response);
        if let Some(multi) = lookup(t.multi, key) {
            lemma_heard_rejection(a, multi.response, r.response);
        }
        if waits(waiting, id, n - 1) {
            assert(waits(waiting, id, n));
        }
        if p.subscription_id == id {
            assert(waits(waiting, id, n));
            assert(heard(a, r.response).len() == 0 ==> heard(a, r.response).push(
                rejection(r.response),
            ) =~= seq![rejection(r.response)]);
        } else {
            assert(waits(waiting, id, n) ==> waits(waiting, id, n - 1));
        }
    }
}

/// No answer is awaited for the subscription and any of its eventgroups.
pub open spec fn awaits_nothing(rows: Seq<PendingRow>, r: RequestView) -> bool {
    forall|i: int|
        0 <= i < rows.len() ==> !((#[trigger] rows[i]).0.service_id == r.key.service_id
            && rows[i].0.instance_id == r.key.instance_id && rows[i].0.major_version
            == r.key.major_version && r.eventgroup_ids.contains(rows[i].0.eventgroup_id)
            && rows[i].1.subscription_id == r.subscription_id)
}

proof fn lemma_awaits_nothing_kept(
    rows: Seq<PendingRow>,
    r: RequestView,
    p: spec_fn(PendingRow) -> bool,
)
    requires
        awaits_nothing(rows, r),
    ensures
        awaits_nothing(rows.filter(p), r),
{
    let left = rows.filter(p);
    assert forall|i: int| 0 <= i < left.len() implies !((#[trigger] left[i]).0.service_id
        == r.key.service_id && left[i].0.instance_id == r.key.instance_id
        && left[i].0.major_version == r.key.major_version && r.eventgroup_ids.contains(
        left[i].0.eventgroup_id,
    ) && left[i].1.subscription_id == r.subscription_id) by {
        assert(left.contains(left[i]));
        crate::rows::lemma_filter_contains(rows, p, left[i]);
        let j = choose|j: int| 0 <= j < rows.len() && rows[j] == left[i];
        assert(rows[j].0 == left[i].0);
    }
}

proof fn lemma_refused_awaits_nothing(
    s: StateView,
    acts: Seq<ActionView>,
    r: RequestView,
    acked: Set<u16>,
    entry: SdEntry,
    waiting: Seq<PendingRow>,
    n: int,
)
    requires
        0 <= n <= waiting.len(),
        tracks(s, r, acked),
        !covers(acked, r.eventgroup_ids),
        entry_key(entry) == r.key,
        rows_report_elsewhere(waiting, r.response),
        heard(acts, r.response).len() == 0,
        forall|i: int|
            0 <= i < s.pending_subscriptions.len() ==> (#[trigger] s.pending_subscriptions[i]).0
                != pending_key(entry),
    ensures
        ({
            let t = nacked_many(s, acts, entry, waiting, n).0;
            &&& forall|i: int|
                0 <= i < t.pending_subscriptions.len() ==> (
                #[trigger] t.pending_subscriptions[i]).0 != pending_key(entry)
            &&& waits(waiting, r.subscription_id, n) ==> awaits_nothing(
                t.pending_subscriptions,
                r,
            )
        }),
    decreases n,
{
    if n > 0 {
        lemma_refused_awaits_nothing(s, acts, r, acked, entry, waiting, n - 1);
        lemma_rows_refused(s, acts, r, acked, entry, waiting, n - 1);
        let (t, a) = nacked_many(s, acts, entry, waiting, n - 1);
        let u = nacked_many(s, acts, entry, waiting, n).0;
        let p = waiting[n - 1].1;
        let id = r.subscription_id;
        if let Some(multi) = lookup(t.multi, multi_key(entry, p.subscription_id)) {
            let q = not_refused(entry, multi.eventgroup_ids, p.subscription_id);
            let rows = t.pending_subscriptions;
            let left = rows.filter(q);
            assert(u.pending_subscriptions == left);
            assert forall|i: int| 0 <= i < left.len() implies (#[trigger] left[i]).0
                != pending_key(entry) && q(left[i]) by {
                assert(left.contains(left[i]));
                crate::rows::lemma_filter_contains(rows, q, left[i]);
                let j = choose|j: int| 0 <= j < rows.len() && rows[j] == left[i];
                assert(rows[j].0 != pending_key(entry));
            }
            if waits(waiting, id, n - 1) {
                lemma_awaits_nothing_kept(rows, r, q);
            } else if p.subscription_id == id {
                assert(multi.eventgroup_ids == r.eventgroup_ids);
                assert forall|i: int| 0 <= i < left.len() implies !((
                #[trigger] left[i]).0.service_id == r.key.service_id && left[i].0.instance_id
                    == r.key.instance_id && left[i].0.major_version == r.key.major_version
                    && r.eventgroup_ids.contains(left[i].0.eventgroup_id)
                    && left[i].1.subscription_id == id) by {
                    assert(q(left[i]));
                    assert(left[i].0 != pending_key(entry));
                }
            } else {
                assert(!waits(waiting, id, n));
            }
        } else {
            assert(u.pending_subscriptions == t.pending_subscriptions);
            if !waits(waiting, id, n - 1) {
                assert(p.subscription_id != id);
                assert(!waits(waiting, id, n));
            }
        }
    }
}

/// A subscription to several eventgroups fails with the first of them that is refused, whichever
/// were acknowledged before: its handle hears of the refusal and of nothing else, and nothing of
/// the subscription is left or awaited.
pub proof fn one_refusal_fails_the_subscription(
    s: StateView,
    key: ServiceKey,
    eventgroup_ids: Seq<u16>,
    events: ChannelId,
    response: ChannelId,
    selection: Option<TransportSelection>,
    now: u64,
    local: SocketAddr,
    later: u64,
    entries: Seq<SdEntry>,
    n: int,
    refusal: SdEntry,
)
    requires
        s.wf(),
        eventgroup_ids.len() > 1,
        subscribe_refusal(s, key, eventgroup_ids, selection) is None,
        reports_nowhere(s, response),
        0 <= n <= entries.len(),
        entry_key(refusal) == key,
        eventgroup_ids.contains(refusal.eventgroup_id),
        !acknowledged(key, entries, n).contains(refusal.eventgroup_id),
    ensures
        ({
            let t = subscribed_from(
                s,
                key,
                eventgroup_ids,
                events,
                response,
                selection,
                now,
                local,
                later,
            );
            let (u, before) = acked_in_turn(t, entries, n);
            let (v, after) = after_nack(u, before, refusal);
            &&& heard(before, response).len() == 0
            &&& heard(after, response) == seq![
                ActionView::Deliver {
                    to: response,
                    message: DeliveryView::Subscribed(Err(ErrorView::SubscriptionRejected)),
                },
            ]
            &&& nothing_left(v, refusal, s.next_subscription_id)
            &&& awaits_nothing(
                v.pending_subscriptions,
                request_of(s, key, eventgroup_ids, events, response, selection),
            )
        }),
{
    let r = request_of(s, key, eventgroup_ids, events, response, selection);
    let t = subscribed_from(
        s,
        key,
        eventgroup_ids,
        events,
        response,
        selection,
        now,
        local,
        later,
    );
    lemma_command_begins(s, key, eventgroup_ids, events, response, selection, now, local, later);
    lemma_all_acknowledgements(t, r, entries, n);
    let (u, before) = acked_in_turn(t, entries, n);
    let acked = acknowledged(key, entries, n);
    let g = refusal.eventgroup_id;
    let i = choose|i: int| 0 <= i < eventgroup_ids.len() && eventgroup_ids[i] == g;
    assert(!acked.contains(r.eventgroup_ids[i]));
    let rows = u.pending_subscriptions;
    let row = choose|row: PendingRow| #[trigger]
        rows.contains(row) && row.0 == pending_key_for(r.key, r.eventgroup_ids[i])
            && row.1.subscription_id == r.subscription_id;
    let waiting = rows.filter(awaiting(pending_key(refusal)));
    crate::rows::lemma_filter_contains(rows, awaiting(pending_key(refusal)), row);
    let j = choose|j: int| 0 <= j < waiting.len() && waiting[j] == row;
    assert(waiting[j].1.subscription_id == r.subscription_id);
    assert(waits(waiting, r.subscription_id, waiting.len() as int));
    lemma_rows_kept(rows, awaiting(pending_key(refusal)), r.response);
    let left = StateView {
        pending_subscriptions: rows.filter(awaiting_other(pending_key(refusal))),
        ..u
    };
    lemma_rows_refused(left, before, r, acked, refusal, waiting, waiting.len() as int);
    let others = left.pending_subscriptions;
    assert forall|x: int| 0 <= x < others.len() implies (#[trigger] others[x]).0 != pending_key(
        refusal,
    ) by {
        assert(others.contains(others[x]));
        crate::rows::lemma_filter_contains(rows, awaiting_other(pending_key(refusal)), others[x]);
    }
    lemma_refused_awaits_nothing(
        left,
        before,
        r,
        acked,
        refusal,
        waiting,
        waiting.len() as int,
    );
    let k = choose|k: int| 0 <= k < rows.len() && rows[k] == row;
    assert(rows[k].0 == pending_key(refusal));
    a_refusal_fails_the_whole_subscription(u, before, refusal, r.subscription_id);
}

/// The same of a subscription whose connection was opened beside the event loop.
pub proof fn success_beside_the_loop_needs_every_acknowledgement(
    s: StateView,
    u: UpdateView,
    now: u64,
    entries: Seq<SdEntry>,
    n: int,
)
    requires
        s.wf(),
        u.request.eventgroup_ids.len() > 1,
        reports_nowhere(s, u.request.response),
        0 <= n <= entries.len(),
    ensures
        heard(acked_in_turn(after_update(s, u, now), entries, n).1, u.request.response) == owed(
            u.request,
            acknowledged(u.request.key, entries, n),
        ),
{
    let r = u.request;
    let registered = if u.transport == Transport::Tcp {
        s.port_registered(u.endpoint.port, r.key.service_id, r.key.instance_id)
    } else {
        s
    };
    lemma_begins(registered, r, u.endpoint, false, u.conn_key);
    let begun = subscription_tracked(registered, r, u.endpoint, false, u.conn_key);
    let t = after_update(s, u, now);
    lemma_begun_alike(begun, t, r);
    lemma_all_acknowledgements(t, r, entries, n);
}

} // verus!
