//! What holds of events, from the command that sends one to the handles of its subscribers.

use crate::buffer::content;
use crate::config::Transport;
use crate::ids::{InstanceId, ServiceId};
use crate::message::{ChannelId, DeliveryView, EventView};
use crate::net::SocketAddr;
use crate::runtime::action::{ActionView, RpcTransportSender};
use crate::runtime::client::{event_in, event_to_listeners, service_at};
use crate::runtime::command::Command;
use crate::runtime::event_loop::{
    carried_out, message_handled, reaction, split_message, Arrival, LoopEvent, LoopView,
};
use crate::runtime::execute::{executed_all, EffectView};
use crate::runtime::laws::{
    delivered, events_reach_their_subscriptions, every_subscriber_is_notified_once, receiving,
    subscribed_in,
};
use crate::runtime::offer_laws::instance_key;
use crate::runtime::reading::{lemma_one_executed, lemma_plain_command};
use crate::runtime::request_laws::{arriving, bytes_sent, lemma_arriving, lemma_says, says};
use crate::runtime::rpc::{payload_fits, rpc_header};
use crate::runtime::server::{group_of, notify_actions, notify_targets, udp_targets, NotifyTarget};
use crate::runtime::state::{
    ClientSubscription, DiscoveredService, OfferedService, ServiceKey, StateView, SubscriberKey,
    SubscriberSlot,
};
use crate::table::{has_key, lookup};
use crate::wire::MessageType;
use vstd::prelude::*;

verus! {

/// The socket of a service for a transport.
pub open spec fn socket_for(o: OfferedService, transport: Transport) -> Option<RpcTransportSender> {
    match transport {
        Transport::Udp => o.udp_transport,
        Transport::Tcp => o.tcp_transport,
    }
}

/// A client at this endpoint, over this transport, is subscribed to the eventgroup of a service.
pub open spec fn subscribed_to(
    s: StateView,
    key: ServiceKey,
    eventgroup_id: u16,
    endpoint: SocketAddr,
    transport: Transport,
) -> bool {
    exists|i: int|
        {
            &&& 0 <= i < s.server_subscribers.len()
            &&& (#[trigger] s.server_subscribers[i]).0 == (SubscriberSlot {
                group: SubscriberKey {
                    service_id: key.service_id,
                    instance_id: key.instance_id,
                    major_version: key.major_version,
                    eventgroup_id,
                },
                endpoint,
            })
            &&& s.server_subscribers[i].1.transport == transport
        }
}

/// A client at this endpoint, over this transport, is subscribed to one of the eventgroups.
pub open spec fn subscribed_to_any(
    s: StateView,
    key: ServiceKey,
    eventgroup_ids: Seq<u16>,
    endpoint: SocketAddr,
    transport: Transport,
) -> bool {
    exists|g: int|
        0 <= g < eventgroup_ids.len() && subscribed_to(
            s,
            key,
            #[trigger] eventgroup_ids[g],
            endpoint,
            transport,
        )
}

spec fn reachable(o: OfferedService) -> spec_fn(NotifyTarget) -> bool {
    |t: NotifyTarget| socket_for(o, t.1) is Some
}

spec fn sent_to(o: OfferedService, data: Seq<u8>) -> spec_fn(NotifyTarget) -> EffectView {
    |t: NotifyTarget|
        EffectView::SendFromService { via: socket_for(o, t.1)->0, data, target: t.0 }
}

proof fn lemma_sent_to_targets(
    s: StateView,
    key: ServiceKey,
    o: OfferedService,
    data: Seq<u8>,
    targets: Seq<NotifyTarget>,
    n: int,
)
    requires
        lookup(s.offered, key) == Some(o),
        0 <= n <= targets.len(),
    ensures
        executed_all(s, notify_actions(key, data, targets), n) == (
            s,
            targets.take(n).filter(reachable(o)).map_values(sent_to(o, data)),
        ),
    decreases n,
{
    let p = reachable(o);
    let f = sent_to(o, data);
    reveal(Seq::filter);
    let acts = notify_actions(key, data, targets);
    if n > 0 {
        lemma_sent_to_targets(s, key, o, data, targets, n - 1);
        crate::rows::lemma_filter_step(targets, n - 1, p);
        let before = targets.take(n - 1).filter(p);
        let (_, effects) = executed_all(s, acts, n - 1);
        if p(targets[n - 1]) {
            assert(before.push(targets[n - 1]).map_values(f) =~= before.map_values(f).push(
                f(targets[n - 1]),
            ));
            assert(effects + seq![f(targets[n - 1])] =~= effects.push(f(targets[n - 1])));
        } else {
            assert(effects + Seq::<EffectView>::empty() =~= effects);
        }
    } else {
        assert(targets.take(0) =~= Seq::<NotifyTarget>::empty());
        assert(targets.take(0).filter(p).map_values(f) =~= Seq::<EffectView>::empty());
    }
}

proof fn lemma_targets_are_subscribed(
    s: StateView,
    key: ServiceKey,
    eventgroup_ids: Seq<u16>,
    t: NotifyTarget,
)
    ensures
        notify_targets(
            s.server_subscribers,
            key,
            eventgroup_ids,
            eventgroup_ids.len() as int,
        ).contains(t) <==> subscribed_to_any(s, key, eventgroup_ids, t.0, t.1),
        notify_targets(
            s.server_subscribers,
            key,
            eventgroup_ids,
            eventgroup_ids.len() as int,
        ).no_duplicates(),
{
    every_subscriber_is_notified_once(s, key, eventgroup_ids, t);
    let subs = s.server_subscribers;
    let n = subs.len() as int;
    assert forall|g: int| 0 <= g < eventgroup_ids.len() implies (subscribed_in(
        subs,
        group_of(key, #[trigger] eventgroup_ids[g]),
        t,
        n,
    ) <==> subscribed_to(s, key, eventgroup_ids[g], t.0, t.1)) by {
        let group = group_of(key, eventgroup_ids[g]);
        if subscribed_in(subs, group, t, n) {
            let i = choose|i: int|
                0 <= i < n && (#[trigger] subs[i]).0.group == group && t == (
                    subs[i].0.endpoint,
                    subs[i].1.transport,
                );
            assert(subs[i].0 == (SubscriberSlot { group, endpoint: t.0 }));
        }
        if subscribed_to(s, key, eventgroup_ids[g], t.0, t.1) {
            let i = choose|i: int|
                0 <= i < subs.len() && (#[trigger] subs[i]).0 == (SubscriberSlot {
                    group,
                    endpoint: t.0,
                }) && subs[i].1.transport == t.1;
            assert(subs[i].0.group == group);
        }
    }
    if subscribed_to_any(s, key, eventgroup_ids, t.0, t.1) {
        let g = choose|g: int|
            0 <= g < eventgroup_ids.len() && subscribed_to(
                s,
                key,
                #[trigger] eventgroup_ids[g],
                t.0,
                t.1,
            );
        assert(subscribed_in(subs, group_of(key, eventgroup_ids[g]), t, n));
    }
}

/// An event is a message that its readers take for it: a notification of the service, under the
/// event's identifier, with the payload.
pub open spec fn is_event(data: Seq<u8>, service_id: u16, event_id: u16, payload: Seq<u8>) -> bool {
    let (h, _) = split_message(data)->0;
    &&& says(data, h, payload)
    &&& h.message_type is Notification
    &&& h.service_id == service_id
    &&& h.method_id == event_id
    &&& h.return_code == 0
}

/// An event is sent to the clients that are subscribed to one of its eventgroups and to nobody
/// else, to each endpoint once, and from the socket of the service for the transport of the
/// subscription.
pub proof fn an_event_is_sent_to_its_subscribers(
    l: LoopView,
    service_id: ServiceId,
    instance_id: InstanceId,
    major_version: u8,
    eventgroup_ids: Vec<u16>,
    event_id: u16,
    payload: bytes::Bytes,
    now: u64,
    reply: ChannelId,
    endpoint: SocketAddr,
    transport: Transport,
)
    requires
        payload_fits(content(payload).len() as int),
        content(payload).len() + 8 <= u32::MAX,
        has_key(l.state.offered, instance_key(service_id, instance_id, major_version)),
    ensures
        ({
            let command = Command::Notify {
                service_id,
                instance_id,
                major_version,
                eventgroup_ids,
                event_id,
                payload,
            };
            let (after, effects) = reaction(l, LoopEvent::Command { command }, now, reply);
            let key = instance_key(service_id, instance_id, major_version);
            let o = lookup(l.state.offered, key)->0;
            &&& after == l
            &&& o.udp_transport is None || o.udp_transport != o.tcp_transport
                ==> effects.no_duplicates()
            &&& forall|i: int|
                0 <= i < effects.len() ==> {
                    let e = #[trigger] effects[i];
                    &&& e is SendFromService
                    &&& is_event(bytes_sent(e), service_id@, event_id, content(payload))
                }
            &&& (exists|i: int|
                {
                    &&& 0 <= i < effects.len()
                    &&& (#[trigger] effects[i])->SendFromService_target == endpoint
                    &&& socket_for(o, transport) == Some(effects[i]->SendFromService_via)
                }) <== subscribed_to_any(l.state, key, eventgroup_ids@, endpoint, transport)
                && socket_for(o, transport) is Some
            &&& forall|i: int|
                0 <= i < effects.len() ==> exists|how: Transport|
                    {
                        &&& socket_for(o, how) == Some((#[trigger] effects[i])->SendFromService_via)
                        &&& #[trigger] subscribed_to_any(
                            l.state,
                            key,
                            eventgroup_ids@,
                            effects[i]->SendFromService_target,
                            how,
                        )
                    }
        }),
{
    let s = l.state;
    let command = Command::Notify {
        service_id,
        instance_id,
        major_version,
        eventgroup_ids,
        event_id,
        payload,
    };
    let key = instance_key(service_id, instance_id, major_version);
    let o = lookup(s.offered, key)->0;
    let ids = eventgroup_ids@;
    lemma_plain_command(l, command, now, reply);
    let h = rpc_header(
        service_id@,
        event_id,
        s.client_id,
        0,
        1,
        MessageType::Notification,
        0,
        content(payload).len() as int,
    );
    let data = h.bytes() + content(payload);
    lemma_says(h, content(payload));
    let targets = notify_targets(s.server_subscribers, key, ids, ids.len() as int);
    let n = targets.len() as int;
    lemma_sent_to_targets(s, key, o, data, targets, n);
    assert(targets.take(n) =~= targets);
    let p = reachable(o);
    let f = sent_to(o, data);
    let chosen = targets.filter(p);
    let (_, effects) = reaction(l, LoopEvent::Command { command }, now, reply);
    assert(effects == chosen.map_values(f));
    let t = (endpoint, transport);
    lemma_targets_are_subscribed(s, key, ids, t);
    crate::runtime::state::lemma_filter_no_duplicates(targets, p);
    if subscribed_to_any(s, key, ids, endpoint, transport) && socket_for(o, transport) is Some {
        crate::rows::lemma_filter_contains(targets, p, t);
        let i = choose|i: int| 0 <= i < chosen.len() && chosen[i] == t;
        assert(effects[i] == f(t));
    }
    assert forall|i: int| 0 <= i < effects.len() implies exists|how: Transport|
        {
            &&& socket_for(o, how) == Some((#[trigger] effects[i])->SendFromService_via)
            &&& #[trigger] subscribed_to_any(
                s,
                key,
                ids,
                effects[i]->SendFromService_target,
                how,
            )
        } by {
        let x = chosen[i];
        assert(chosen.contains(x));
        crate::rows::lemma_filter_contains(targets, p, x);
        lemma_targets_are_subscribed(s, key, ids, x);
        assert(effects[i] == f(x));
        assert(subscribed_to_any(s, key, ids, x.0, x.1));
    }
    if o.udp_transport is None || o.udp_transport != o.tcp_transport {
        assert forall|i: int, j: int| 0 <= i < j < effects.len() implies effects[i] != effects[j] by {
            lemma_distinct_sendings(o, chosen, data, i, j);
        }
    }
}

/// Two targets are reached by two sendings: over different transports the sockets differ.
proof fn lemma_distinct_sendings(
    o: OfferedService,
    chosen: Seq<NotifyTarget>,
    data: Seq<u8>,
    i: int,
    j: int,
)
    requires
        0 <= i < j < chosen.len(),
        chosen.no_duplicates(),
        o.udp_transport is None || o.udp_transport != o.tcp_transport,
        forall|k: int| 0 <= k < chosen.len() ==> socket_for(o, (#[trigger] chosen[k]).1) is Some,
    ensures
        sent_to(o, data)(chosen[i]) != sent_to(o, data)(chosen[j]),
{
    assert(chosen[i] != chosen[j]);
    assert(socket_for(o, chosen[i].1) is Some && socket_for(o, chosen[j].1) is Some);
}

/// An event for subscribers without subscription is sent to exactly the given targets, in order,
/// from the UDP socket of the service.
pub proof fn an_event_is_sent_to_given_targets(
    l: LoopView,
    service_id: ServiceId,
    instance_id: InstanceId,
    major_version: u8,
    eventgroup_id: u16,
    event_id: u16,
    payload: bytes::Bytes,
    targets: Vec<SocketAddr>,
    now: u64,
    reply: ChannelId,
)
    requires
        payload_fits(content(payload).len() as int),
        content(payload).len() + 8 <= u32::MAX,
        lookup(
            l.state.offered,
            instance_key(service_id, instance_id, major_version),
        ) matches Some(o) && o.udp_transport is Some,
    ensures
        ({
            let command = Command::NotifyStatic {
                service_id,
                instance_id,
                major_version,
                eventgroup_id,
                event_id,
                payload,
                targets,
            };
            let (after, effects) = reaction(l, LoopEvent::Command { command }, now, reply);
            let key = instance_key(service_id, instance_id, major_version);
            let o = lookup(l.state.offered, key)->0;
            &&& after == l
            &&& effects.len() == targets@.len()
            &&& forall|i: int|
                0 <= i < effects.len() ==> {
                    let e = #[trigger] effects[i];
                    &&& e == (EffectView::SendFromService {
                        via: o.udp_transport->0,
                        data: bytes_sent(e),
                        target: targets@[i],
                    })
                    &&& is_event(bytes_sent(e), service_id@, event_id, content(payload))
                }
        }),
{
    let s = l.state;
    let command = Command::NotifyStatic {
        service_id,
        instance_id,
        major_version,
        eventgroup_id,
        event_id,
        payload,
        targets,
    };
    let key = instance_key(service_id, instance_id, major_version);
    let o = lookup(s.offered, key)->0;
    lemma_plain_command(l, command, now, reply);
    let h = rpc_header(
        service_id@,
        event_id,
        s.client_id,
        0,
        1,
        MessageType::Notification,
        0,
        content(payload).len() as int,
    );
    let data = h.bytes() + content(payload);
    lemma_says(h, content(payload));
    let all = udp_targets(targets@);
    let n = all.len() as int;
    lemma_sent_to_targets(s, key, o, data, all, n);
    assert(all.take(n) =~= all);
    let p = reachable(o);
    assert forall|i: int| 0 <= i < all.len() implies p(#[trigger] all[i]) by {}
    crate::rows::lemma_filter_all(all, p);
    let (_, effects) = reaction(l, LoopEvent::Command { command }, now, reply);
    assert(effects == all.map_values(sent_to(o, data)));
}

/// The subscriptions of a host that get an event of a service on a connection: those to the
/// service that have no socket of their own and are on that connection.
pub open spec fn getting(s: StateView, key: ServiceKey, conn_key: u64) -> Seq<ClientSubscription> {
    s.subscriptions.filter(
        |c: ClientSubscription|
            c.service == key && !c.has_dedicated_socket && c.tcp_conn_key == conn_key,
    )
}

/// The listeners of a host to a service.
pub open spec fn listening(s: StateView, service_id: u16) -> Seq<(SubscriberKey, ChannelId)> {
    s.static_listeners.filter(|x: (SubscriberKey, ChannelId)| x.0.service_id == service_id)
}

/// The connection on which a message arrives.
pub open spec fn arrives_on(arrival: Arrival) -> u64 {
    match arrival {
        Arrival::Udp { .. } => 0,
        Arrival::TcpServer { conn_key } => conn_key,
        Arrival::TcpClient { conn_key } => conn_key,
    }
}

proof fn lemma_service_at(
    discovered: Seq<(ServiceKey, DiscoveredService)>,
    service_id: u16,
    from: SocketAddr,
    i: int,
    k: int,
)
    requires
        0 <= i <= k < discovered.len(),
        discovered[k].0.service_id == service_id,
        discovered[k].1.udp_endpoint == Some(from) || discovered[k].1.tcp_endpoint == Some(from),
        forall|j: int|
            0 <= j < k ==> !((#[trigger] discovered[j]).0.service_id == service_id && (
            discovered[j].1.udp_endpoint == Some(from) || discovered[j].1.tcp_endpoint == Some(
                from,
            ))),
    ensures
        service_at(discovered, service_id, from, i) == Some(discovered[k].0),
    decreases k - i,
{
    if i < k {
        assert(!(discovered[i].0.service_id == service_id && (discovered[i].1.udp_endpoint
            == Some(from) || discovered[i].1.tcp_endpoint == Some(from))));
        lemma_service_at(discovered, service_id, from, i + 1, k);
    }
}

spec fn told_to_listener(event: EventView) -> spec_fn((SubscriberKey, ChannelId)) -> ActionView {
    |x: (SubscriberKey, ChannelId)|
        ActionView::Deliver { to: x.1, message: DeliveryView::Event(event) }
}

proof fn lemma_listeners_told(
    listeners: Seq<(SubscriberKey, ChannelId)>,
    service_id: u16,
    event: EventView,
    n: int,
)
    requires
        0 <= n <= listeners.len(),
    ensures
        event_to_listeners(listeners, service_id, event, n) == listeners.take(n).filter(
            |x: (SubscriberKey, ChannelId)| x.0.service_id == service_id,
        ).map_values(told_to_listener(event)),
    decreases n,
{
    let p = |x: (SubscriberKey, ChannelId)| x.0.service_id == service_id;
    let f = told_to_listener(event);
    reveal(Seq::filter);
    if n > 0 {
        lemma_listeners_told(listeners, service_id, event, n - 1);
        crate::rows::lemma_filter_step(listeners, n - 1, p);
        let before = listeners.take(n - 1).filter(p);
        if p(listeners[n - 1]) {
            assert(before.push(listeners[n - 1]).map_values(f) =~= before.map_values(f).push(
                f(listeners[n - 1]),
            ));
        }
    } else {
        assert(listeners.take(0) =~= Seq::<(SubscriberKey, ChannelId)>::empty());
        assert(listeners.take(0).filter(p).map_values(f) =~= Seq::<ActionView>::empty());
    }
}

proof fn lemma_only_delivered(s: StateView, actions: Seq<ActionView>, n: int)
    requires
        0 <= n <= actions.len(),
        forall|i: int| 0 <= i < actions.len() ==> (#[trigger] actions[i]) is Deliver,
    ensures
        ({
            let (t, effects) = executed_all(s, actions, n);
            &&& t == s
            &&& effects.len() == n
            &&& forall|i: int|
                0 <= i < n ==> #[trigger] effects[i] == (EffectView::Deliver {
                    to: actions[i]->Deliver_to,
                    message: actions[i]->Deliver_message,
                })
        }),
    decreases n,
{
    if n > 0 {
        lemma_only_delivered(s, actions, n - 1);
        assert(actions[n - 1] is Deliver);
    }
}

/// An event that comes from a known service goes, with its payload, to every subscription to that
/// service on the connection on which it came, and to every listener to the service, once each;
/// and to nobody else. Nothing changes.
pub proof fn an_event_is_delivered(
    client: LoopView,
    data: Vec<u8>,
    event_id: u16,
    payload: Seq<u8>,
    from: SocketAddr,
    arrival: Arrival,
    now: u64,
    reply: ChannelId,
    k: int,
)
    requires
        0 <= k < client.state.discovered.len(),
        is_event(data@, client.state.discovered[k].0.service_id, event_id, payload),
        client.state.discovered[k].0.service_id != 0xFFFF,
        0x8000 <= event_id < 0xFFFF,
        client.state.discovered[k].1.udp_endpoint == Some(from)
            || client.state.discovered[k].1.tcp_endpoint == Some(from),
        forall|j: int|
            0 <= j < k ==> !((#[trigger] client.state.discovered[j]).0.service_id
                == client.state.discovered[k].0.service_id && (
            client.state.discovered[j].1.udp_endpoint == Some(from)
                || client.state.discovered[j].1.tcp_endpoint == Some(from))),
    ensures
        ({
            let (after, effects) = reaction(client, arriving(arrival, data, from), now, reply);
            let key = client.state.discovered[k].0;
            let subs = getting(client.state, key, arrives_on(arrival));
            let more = listening(client.state, key.service_id);
            let event = DeliveryView::Event(EventView { event_id, payload });
            &&& after == client
            &&& effects.len() == subs.len() + more.len()
            &&& forall|i: int|
                0 <= i < subs.len() ==> #[trigger] effects[i] == (EffectView::Deliver {
                    to: subs[i].events_tx,
                    message: event,
                })
            &&& forall|i: int|
                subs.len() <= i < subs.len() + more.len() ==> #[trigger] effects[i]
                    == (EffectView::Deliver { to: more[i - subs.len()].1, message: event })
        }),
{
    let s = client.state;
    let key = s.discovered[k].0;
    let (h, _) = split_message(data@)->0;
    lemma_arriving(client, arrival, data, from, now, reply);
    assert(payload.subrange(0, h.payload_len()) =~= payload);
    lemma_service_at(s.discovered, key.service_id, from, 0, k);
    let event = EventView { event_id, payload };
    let conn = arrives_on(arrival);
    let n = s.subscriptions.len() as int;
    let m = s.static_listeners.len() as int;
    events_reach_their_subscriptions(s.subscriptions, key, conn, event, n);
    lemma_listeners_told(s.static_listeners, key.service_id, event, m);
    assert(s.subscriptions.take(n) =~= s.subscriptions);
    assert(s.static_listeners.take(m) =~= s.static_listeners);
    let p = |c: ClientSubscription|
        c.service == key && !c.has_dedicated_socket && c.tcp_conn_key == conn;
    assert(p =~= receiving(key, conn)) by {
        assert forall|c: ClientSubscription| #[trigger] p(c) == receiving(key, conn)(c) by {}
    }
    let subs = getting(s, key, conn);
    let more = listening(s, key.service_id);
    let actions = subs.map_values(delivered(event)) + more.map_values(told_to_listener(event));
    assert(message_handled(s, data@, from, arrival, reply) == (s, actions));
    assert forall|i: int| 0 <= i < actions.len() implies (#[trigger] actions[i]) is Deliver by {
        if i < subs.len() {
            assert(actions[i] == delivered(event)(subs[i]));
        } else {
            assert(actions[i] == told_to_listener(event)(more[i - subs.len()]));
        }
    }
    lemma_only_delivered(s, actions, actions.len() as int);
    let (_, effects) = carried_out((s, actions));
    assert forall|i: int| 0 <= i < subs.len() implies #[trigger] effects[i]
        == (EffectView::Deliver { to: subs[i].events_tx, message: DeliveryView::Event(event) }) by {
        assert(actions[i] == delivered(event)(subs[i]));
    }
    assert forall|i: int| subs.len() <= i < subs.len() + more.len() implies #[trigger] effects[i]
        == (EffectView::Deliver {
        to: more[i - subs.len()].1,
        message: DeliveryView::Event(event),
    }) by {
        assert(actions[i] == told_to_listener(event)(more[i - subs.len()]));
    }
}

proof fn lemma_no_service_at(
    discovered: Seq<(ServiceKey, DiscoveredService)>,
    service_id: u16,
    from: SocketAddr,
    i: int,
)
    requires
        0 <= i <= discovered.len(),
        forall|j: int|
            0 <= j < discovered.len() ==> !((#[trigger] discovered[j]).0.service_id == service_id
                && (discovered[j].1.udp_endpoint == Some(from) || discovered[j].1.tcp_endpoint
                == Some(from))),
    ensures
        service_at(discovered, service_id, from, i) is None,
    decreases discovered.len() - i,
{
    if i < discovered.len() {
        assert(!(discovered[i].0.service_id == service_id && (discovered[i].1.udp_endpoint == Some(
            from,
        ) || discovered[i].1.tcp_endpoint == Some(from))));
        lemma_no_service_at(discovered, service_id, from, i + 1);
    }
}

/// An event that comes from no known service, or that is under no event's identifier, reaches
/// nobody and changes nothing.
pub proof fn a_foreign_event_reaches_nobody(
    client: LoopView,
    data: Vec<u8>,
    service_id: u16,
    event_id: u16,
    payload: Seq<u8>,
    from: SocketAddr,
    arrival: Arrival,
    now: u64,
    reply: ChannelId,
)
    requires
        is_event(data@, service_id, event_id, payload),
        event_id < 0x8000 || event_id == 0xFFFF || forall|j: int|
            0 <= j < client.state.discovered.len() ==> !((
            #[trigger] client.state.discovered[j]).0.service_id == service_id && (
            client.state.discovered[j].1.udp_endpoint == Some(from)
                || client.state.discovered[j].1.tcp_endpoint == Some(from))),
    ensures
        reaction(client, arriving(arrival, data, from), now, reply) == (
            client,
            Seq::<EffectView>::empty(),
        ),
{
    let s = client.state;
    lemma_arriving(client, arrival, data, from, now, reply);
    if 0x8000 <= event_id < 0xFFFF {
        lemma_no_service_at(s.discovered, service_id, from, 0);
    }
    let (t, actions) = message_handled(s, data@, from, arrival, reply);
    assert(t == s);
    assert(actions =~= Seq::<ActionView>::empty());
    lemma_one_executed(
        s,
        ActionView::Deliver { to: 0, message: DeliveryView::HasSubscribers(true) },
    );
}

/// What a server sends as an event reaches the subscriptions of the client that reads it: on the
/// connection of the subscription, or on the socket of its own.
pub proof fn an_event_reaches_its_handles(
    server: LoopView,
    service_id: ServiceId,
    instance_id: InstanceId,
    major_version: u8,
    eventgroup_ids: Vec<u16>,
    event_id: u16,
    payload: bytes::Bytes,
    now: u64,
    reply: ChannelId,
    data: Vec<u8>,
    n: int,
    client: LoopView,
    from: SocketAddr,
    arrival: Arrival,
    later: u64,
    k: int,
    c: ClientSubscription,
)
    requires
        payload_fits(content(payload).len() as int),
        content(payload).len() + 8 <= u32::MAX,
        service_id@ != 0xFFFF,
        0x8000 <= event_id < 0xFFFF,
        has_key(server.state.offered, instance_key(service_id, instance_id, major_version)),
        0 <= n < reaction(
            server,
            LoopEvent::Command {
                command: Command::Notify {
                    service_id,
                    instance_id,
                    major_version,
                    eventgroup_ids,
                    event_id,
                    payload,
                },
            },
            now,
            reply,
        ).1.len(),
        data@ == bytes_sent(
            reaction(
                server,
                LoopEvent::Command {
                    command: Command::Notify {
                        service_id,
                        instance_id,
                        major_version,
                        eventgroup_ids,
                        event_id,
                        payload,
                    },
                },
                now,
                reply,
            ).1[n],
        ),
        0 <= k < client.state.discovered.len(),
        client.state.discovered[k].0.service_id == service_id@,
        client.state.discovered[k].1.udp_endpoint == Some(from)
            || client.state.discovered[k].1.tcp_endpoint == Some(from),
        forall|j: int|
            0 <= j < k ==> !((#[trigger] client.state.discovered[j]).0.service_id == service_id@ && (
            client.state.discovered[j].1.udp_endpoint == Some(from)
                || client.state.discovered[j].1.tcp_endpoint == Some(from))),
        client.state.subscriptions.contains(c),
        c.service == client.state.discovered[k].0,
    ensures
        ({
            let (_, effects) = reaction(client, arriving(arrival, data, from), later, reply);
            let event = EventView { event_id, payload: content(payload) };
            &&& !c.has_dedicated_socket && c.tcp_conn_key == arrives_on(arrival)
                ==> effects.contains(
                EffectView::Deliver { to: c.events_tx, message: DeliveryView::Event(event) },
            )
            &&& event_in(data@) == Some(event)
        }),
{
    an_event_is_sent_to_its_subscribers(
        server,
        service_id,
        instance_id,
        major_version,
        eventgroup_ids,
        event_id,
        payload,
        now,
        reply,
        from,
        Transport::Udp,
    );
    assert(is_event(data@, service_id@, event_id, content(payload)));
    an_event_is_delivered(
        client,
        data,
        event_id,
        content(payload),
        from,
        arrival,
        later,
        reply,
        k,
    );
    own_sockets_read_events(data@, service_id@, event_id, content(payload));
    let s = client.state;
    let key = c.service;
    let conn = arrives_on(arrival);
    let p = |x: ClientSubscription|
        x.service == key && !x.has_dedicated_socket && x.tcp_conn_key == conn;
    if !c.has_dedicated_socket && c.tcp_conn_key == conn {
        crate::rows::lemma_filter_contains(s.subscriptions, p, c);
        let subs = getting(s, key, conn);
        let i = choose|i: int| 0 <= i < subs.len() && subs[i] == c;
        let (_, effects) = reaction(client, arriving(arrival, data, from), later, reply);
        assert(effects[i]->Deliver_to == c.events_tx);
    }
}

/// On the socket of its own, a subscription reads an event as it was sent, and takes nothing else
/// for one.
pub proof fn own_sockets_read_events(
    data: Seq<u8>,
    service_id: u16,
    event_id: u16,
    payload: Seq<u8>,
)
    ensures
        is_event(data, service_id, event_id, payload) && 0x8000 <= event_id < 0xFFFF ==> event_in(
            data,
        ) == Some(EventView { event_id, payload }),
        event_in(data) is Some ==> {
            &&& split_message(data) matches Some((h, _)) && h.message_type is Notification
                && 0x8000 <= h.method_id < 0xFFFF && h.method_id == event_in(data)->0.event_id
        },
{
    if is_event(data, service_id, event_id, payload) {
        let (h, _) = split_message(data)->0;
        assert(data.subrange(16, data.len() as int) == payload);
        assert(data.subrange(16, 16 + h.payload_len()) =~= payload);
    }
}

/// An event is registered for a service that is offered, once: its handle hears of the success,
/// and from then on the event is registered; otherwise the handle hears of an error, and nothing
/// changes.
pub proof fn an_event_is_registered(
    l: LoopView,
    service_id: ServiceId,
    instance_id: InstanceId,
    major_version: u8,
    event_id: u16,
    response: ChannelId,
    now: u64,
    reply: ChannelId,
)
    ensures
        ({
            let command = Command::RegisterEvent {
                service_id,
                instance_id,
                major_version,
                event_id,
                response,
            };
            let (after, effects) = reaction(l, LoopEvent::Command { command }, now, reply);
            let key = instance_key(service_id, instance_id, major_version);
            let known = l.state.registered_events;
            let outcome = effects[0]->Deliver_message->Registered_0;
            &&& effects.len() == 1
            &&& effects[0] == (EffectView::Deliver {
                to: response,
                message: DeliveryView::Registered(outcome),
            })
            &&& outcome is Ok <==> has_key(l.state.offered, key) && !known.contains((key, event_id))
            &&& outcome matches Err(e) ==> e is Config && after == l
            &&& outcome is Ok ==> {
                &&& after.state == (StateView {
                    registered_events: known.push((key, event_id)),
                    ..l.state
                })
                &&& after.state.registered_events.contains((key, event_id))
            }
        }),
{
    let s = l.state;
    let command = Command::RegisterEvent {
        service_id,
        instance_id,
        major_version,
        event_id,
        response,
    };
    let key = instance_key(service_id, instance_id, major_version);
    lemma_plain_command(l, command, now, reply);
    let (t, actions) = crate::runtime::command::command_handled(s, command, now);
    assert(actions.len() == 1);
    assert(actions =~= seq![actions[0]]);
    lemma_one_executed(t, actions[0]);
    let known = s.registered_events;
    let more = known.push((key, event_id));
    assert(more[known.len() as int] == (key, event_id));
}

/// Whether an eventgroup has subscribers is answered by whether some client is subscribed to it;
/// the question changes nothing.
pub proof fn subscribers_are_reported(
    l: LoopView,
    service_id: ServiceId,
    instance_id: InstanceId,
    major_version: u8,
    eventgroup_id: u16,
    response: ChannelId,
    now: u64,
    reply: ChannelId,
)
    ensures
        ({
            let command = Command::HasSubscribers {
                service_id,
                instance_id,
                major_version,
                eventgroup_id,
                response,
            };
            let key = instance_key(service_id, instance_id, major_version);
            reaction(l, LoopEvent::Command { command }, now, reply) == (
                l,
                seq![
                    EffectView::Deliver {
                        to: response,
                        message: DeliveryView::HasSubscribers(
                            exists|endpoint: SocketAddr, transport: Transport| #[trigger]
                                subscribed_to(l.state, key, eventgroup_id, endpoint, transport),
                        ),
                    },
                ],
            )
        }),
{
    let s = l.state;
    let command = Command::HasSubscribers {
        service_id,
        instance_id,
        major_version,
        eventgroup_id,
        response,
    };
    let key = instance_key(service_id, instance_id, major_version);
    lemma_plain_command(l, command, now, reply);
    let subs = s.server_subscribers;
    let group = group_of(key, eventgroup_id);
    if crate::runtime::server::is_subscribed(subs, group) {
        let i = choose|i: int| 0 <= i < subs.len() && (#[trigger] subs[i]).0.group == group;
        assert(subs[i].0 == (SubscriberSlot { group, endpoint: subs[i].0.endpoint }));
        assert(subscribed_to(s, key, eventgroup_id, subs[i].0.endpoint, subs[i].1.transport));
    }
    if exists|endpoint: SocketAddr, transport: Transport| #[trigger]
        subscribed_to(s, key, eventgroup_id, endpoint, transport) {
        let (endpoint, transport) = choose|endpoint: SocketAddr, transport: Transport| #[trigger]
            subscribed_to(s, key, eventgroup_id, endpoint, transport);
        let i = choose|i: int|
            0 <= i < subs.len() && (#[trigger] subs[i]).0 == (SubscriberSlot { group, endpoint })
                && subs[i].1.transport == transport;
        assert(subs[i].0.group == group);
    }
    let (t, actions) = crate::runtime::command::command_handled(s, command, now);
    assert(actions.len() == 1);
    assert(actions =~= seq![actions[0]]);
    lemma_one_executed(t, actions[0]);
}

} // verus!
