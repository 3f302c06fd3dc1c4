//! What holds of requests, events, offers and searches, whatever the state.

use crate::config::{OfferConfig, Transport, SD_TTL_INFINITE};
use crate::discovery::{SdMessageView, FLAG_UNICAST};
use crate::error::ErrorView;
use crate::ids::return_code_of;
use crate::message::{ChannelId, DeliveryView, EventView, ResponseView, ServiceAvailability};
use crate::net::{IpAddr, SocketAddr};
use crate::runtime::action::ActionView;
use crate::runtime::client::{
    after_call, after_find, after_response, event_to_subscriptions, find_action, first_match,
    known_availability, receives, response_actions,
};
use crate::runtime::event_loop::{
    message_handled, offer_reaction, sd_packet_handled, sockets_handled, split_message, Arrival,
};
use crate::runtime::execute::{
    executed, known_on, not_from, not_on, not_to, peer_expired, searches_answered, EffectView,
    PendingOffer,
};
use crate::runtime::periodic::{
    after_periodic, initial_offers, still_offered, still_searching, still_subscribed,
};
use crate::runtime::sd::subscribe_message;
use crate::runtime::sd_client::{
    after_offer, after_stop_offer, announced, reachable_ip, renewed, subscription_ttl,
    subscriptions_renewed, to_other_service, to_service, transport_for, usable,
};
use crate::runtime::sd_server::entry_key;
use crate::runtime::server::{
    addressee, after_offer_command, after_stop_offer_command, group_of, notify_targets,
    of_other_service, register_refusal, request_actions, stop_offer_command_actions,
    with_group_targets, with_target, NotifyTarget, SocketOutcome,
};
use crate::runtime::state::{
    CallKey, ClientSubscription, DiscoveredService, FindRequest, OfferedService,
    ServerSubscription, ServiceKey, StateView, SubscriberSlot, SECOND,
};
use crate::table::{
    distinct, has_key, lemma_filter_distinct, lemma_lookup_at, lemma_put, lemma_without, lookup,
    put, without,
};
use crate::wire::{Header, PROTOCOL_VERSION, SD_METHOD_ID, SD_SERVICE_ID};
use vstd::prelude::*;

verus! {

/// The response to a call reaches the handle that made it, once: a second response with the
/// same session does nothing. Other calls go on waiting.
pub proof fn a_response_reaches_its_call(
    s: StateView,
    response: ChannelId,
    header: Header,
    payload: Seq<u8>,
    other: CallKey,
)
    requires
        s.wf(),
        header.client_id == s.client_id,
        header.session_id == s.payload_session_id,
    ensures
        ({
            let during = after_call(s, response);
            let after = after_response(during, header);
            let made = CallKey { client_id: s.client_id, session_id: s.payload_session_id };
            &&& response_actions(during, header, payload) == seq![
                ActionView::Deliver {
                    to: response,
                    message: DeliveryView::CallResult(
                        ResponseView { return_code: return_code_of(header.return_code), payload },
                    ),
                },
            ]
            &&& response_actions(after, header, payload) == Seq::<ActionView>::empty()
            &&& other != made ==> lookup(after.pending_calls, other) == lookup(
                s.pending_calls,
                other,
            )
        }),
{
    let key = CallKey { client_id: s.client_id, session_id: s.payload_session_id };
    let call = crate::runtime::state::PendingCall { response };
    lemma_put(s.pending_calls, key, call);
    let during = after_call(s, response);
    lemma_without(during.pending_calls, key);
}

/// A request for a service that is not offered here, or that came on the socket of another
/// service, is answered: its sender gets a response with its own identifiers and the return
/// code for an unknown service.
pub proof fn unknown_services_are_refused(
    s: StateView,
    header: Header,
    payload: Seq<u8>,
    from: SocketAddr,
    socket: Option<ServiceKey>,
    transport: Transport,
    reply: ChannelId,
)
    requires
        addressee(s, header, socket) is None,
    ensures
        ({
            let acts = request_actions(s, header, payload, from, socket, transport, reply);
            let data = acts[0]->SendClientMessage_data;
            &&& acts.len() == 1
            &&& acts[0] == (ActionView::SendClientMessage { data, target: from, transport })
            &&& Header::parsed(data) matches Some(h)
            &&& h.message_type is Response
            &&& h.return_code == 0x02
            &&& (h.service_id, h.method_id, h.client_id, h.session_id) == (
                header.service_id,
                header.method_id,
                header.client_id,
                header.session_id,
            )
        }),
{
    crate::runtime::rpc::response_echoes_request(header, 0x02, Seq::empty(), false);
}

/// A request with the identifier of an event in place of a method never reaches a service;
/// where its transport is offered, its sender is told that the message is malformed.
pub proof fn events_are_no_methods(
    s: StateView,
    header: Header,
    payload: Seq<u8>,
    from: SocketAddr,
    socket: Option<ServiceKey>,
    transport: Transport,
    reply: ChannelId,
)
    requires
        addressee(s, header, socket) is Some,
        header.method_id >= 0x8000,
    ensures
        ({
            let acts = request_actions(s, header, payload, from, socket, transport, reply);
            let (key, offered) = addressee(s, header, socket)->0;
            let data = acts[0]->SendServerMessage_data;
            &&& offered.sender(transport) is None ==> acts.len() == 0
            &&& offered.sender(transport) is Some ==> {
                &&& acts.len() == 1
                &&& acts[0] == (ActionView::SendServerMessage {
                    service_key: key,
                    data,
                    target: from,
                    transport,
                })
                &&& Header::parsed(data) matches Some(h)
                &&& h.return_code == 0x09
                &&& h.client_id == header.client_id
                &&& h.session_id == header.session_id
            }
        }),
{
    let (key, offered) = addressee(s, header, socket)->0;
    crate::runtime::rpc::response_echoes_request(
        header,
        0x09,
        Seq::empty(),
        offered.method_config@.contains(header.method_id),
    );
}

/// A request on a service's socket reaches that service and no other, whatever else is
/// offered under the same service identifier.
pub proof fn a_socket_belongs_to_one_service(s: StateView, header: Header, key: ServiceKey)
    ensures
        addressee(s, header, Some(key)) matches Some((k, o)) ==> k == key && key.service_id
            == header.service_id && lookup(s.offered, key) == Some(o),
        key.service_id != header.service_id ==> addressee(s, header, Some(key)) is None,
{
}

proof fn lemma_with_target(targets: Seq<NotifyTarget>, t: NotifyTarget)
    ensures
        targets.no_duplicates() ==> with_target(targets, t).no_duplicates(),
        forall|x: NotifyTarget| #[trigger]
            with_target(targets, t).contains(x) <==> targets.contains(x) || x == t,
{
    let r = with_target(targets, t);
    if !targets.contains(t) {
        assert(r[targets.len() as int] == t);
        assert forall|x: NotifyTarget| #[trigger] r.contains(x) <==> targets.contains(x) || x
            == t by {
            if targets.contains(x) {
                let i = choose|i: int| 0 <= i < targets.len() && targets[i] == x;
                assert(r[i] == x);
            }
            if r.contains(x) {
                let i = choose|i: int| 0 <= i < r.len() && r[i] == x;
                if i < targets.len() {
                    assert(targets[i] == x);
                }
            }
        }
        if targets.no_duplicates() {
            assert forall|i: int, j: int|
                0 <= i < r.len() && 0 <= j < r.len() && i != j implies r[i] != r[j] by {
                if i < targets.len() {
                    assert(targets.contains(targets[i]));
                }
                if j < targets.len() {
                    assert(targets.contains(targets[j]));
                }
            }
        }
    }
}

/// A subscriber in the group receives events there.
pub open spec fn subscribed_in(
    subscribers: Seq<(SubscriberSlot, ServerSubscription)>,
    group: crate::runtime::state::SubscriberKey,
    t: NotifyTarget,
    n: int,
) -> bool {
    exists|i: int|
        0 <= i < n && (#[trigger] subscribers[i]).0.group == group && t == (
            subscribers[i].0.endpoint,
            subscribers[i].1.transport,
        )
}

proof fn lemma_group_targets(
    subscribers: Seq<(SubscriberSlot, ServerSubscription)>,
    group: crate::runtime::state::SubscriberKey,
    targets: Seq<NotifyTarget>,
    n: int,
)
    requires
        0 <= n <= subscribers.len(),
    ensures
        targets.no_duplicates() ==> with_group_targets(
            subscribers,
            group,
            targets,
            n,
        ).no_duplicates(),
        forall|t: NotifyTarget| #[trigger]
            with_group_targets(subscribers, group, targets, n).contains(t) <==> targets.contains(t)
                || subscribed_in(subscribers, group, t, n),
    decreases n,
{
    if n > 0 {
        lemma_group_targets(subscribers, group, targets, n - 1);
        let before = with_group_targets(subscribers, group, targets, n - 1);
        let (slot, sub) = subscribers[n - 1];
        let t0 = (slot.endpoint, sub.transport);
        lemma_with_target(before, t0);
        assert forall|t: NotifyTarget| #[trigger]
            with_group_targets(subscribers, group, targets, n).contains(t) <==> targets.contains(t)
                || subscribed_in(subscribers, group, t, n) by {
            if subscribed_in(subscribers, group, t, n - 1) {
                let i = choose|i: int|
                    0 <= i < n - 1 && (#[trigger] subscribers[i]).0.group == group && t == (
                        subscribers[i].0.endpoint,
                        subscribers[i].1.transport,
                    );
                assert(subscribers[i].0.group == group);
            }
            if subscribed_in(subscribers, group, t, n) {
                let i = choose|i: int|
                    0 <= i < n && (#[trigger] subscribers[i]).0.group == group && t == (
                        subscribers[i].0.endpoint,
                        subscribers[i].1.transport,
                    );
                if i < n - 1 {
                    assert(subscribed_in(subscribers, group, t, n - 1));
                }
            }
            assert(before.contains(t) <==> targets.contains(t) || subscribed_in(
                subscribers,
                group,
                t,
                n - 1,
            ));
        }
    } else {
        assert forall|t: NotifyTarget| #[trigger]
            with_group_targets(subscribers, group, targets, n).contains(t) <==> targets.contains(t)
                || subscribed_in(subscribers, group, t, n) by {}
    }
}

proof fn lemma_notify_targets(
    subscribers: Seq<(SubscriberSlot, ServerSubscription)>,
    key: ServiceKey,
    eventgroup_ids: Seq<u16>,
    n: int,
)
    requires
        0 <= n <= eventgroup_ids.len(),
    ensures
        notify_targets(subscribers, key, eventgroup_ids, n).no_duplicates(),
        forall|t: NotifyTarget| #[trigger]
            notify_targets(subscribers, key, eventgroup_ids, n).contains(t) <==> exists|g: int|
                0 <= g < n && subscribed_in(
                    subscribers,
                    group_of(key, #[trigger] eventgroup_ids[g]),
                    t,
                    subscribers.len() as int,
                ),
    decreases n,
{
    let len = subscribers.len() as int;
    if n > 0 {
        lemma_notify_targets(subscribers, key, eventgroup_ids, n - 1);
        let before = notify_targets(subscribers, key, eventgroup_ids, n - 1);
        let group = group_of(key, eventgroup_ids[n - 1]);
        lemma_group_targets(subscribers, group, before, len);
        assert forall|t: NotifyTarget| #[trigger]
            notify_targets(subscribers, key, eventgroup_ids, n).contains(t) <==> exists|g: int|
                0 <= g < n && subscribed_in(
                    subscribers,
                    group_of(key, #[trigger] eventgroup_ids[g]),
                    t,
                    len,
                ) by {
            if before.contains(t) {
                let g = choose|g: int|
                    0 <= g < n - 1 && subscribed_in(
                        subscribers,
                        group_of(key, #[trigger] eventgroup_ids[g]),
                        t,
                        len,
                    );
                assert(subscribed_in(subscribers, group_of(key, eventgroup_ids[g]), t, len));
            }
            if subscribed_in(subscribers, group, t, len) {
                assert(subscribed_in(subscribers, group_of(key, eventgroup_ids[n - 1]), t, len));
            }
        }
    }
}

/// An event reaches every subscriber of any of its eventgroups, exactly once, and nobody
/// else.
pub proof fn every_subscriber_is_notified_once(
    s: StateView,
    key: ServiceKey,
    eventgroup_ids: Seq<u16>,
    t: NotifyTarget,
)
    ensures
        ({
            let targets = notify_targets(
                s.server_subscribers,
                key,
                eventgroup_ids,
                eventgroup_ids.len() as int,
            );
            &&& targets.no_duplicates()
            &&& targets.contains(t) <==> exists|g: int|
                0 <= g < eventgroup_ids.len() && subscribed_in(
                    s.server_subscribers,
                    group_of(key, #[trigger] eventgroup_ids[g]),
                    t,
                    s.server_subscribers.len() as int,
                )
        }),
{
    lemma_notify_targets(
        s.server_subscribers,
        key,
        eventgroup_ids,
        eventgroup_ids.len() as int,
    );
}

/// An event that arrives.
pub open spec fn delivered(event: EventView) -> spec_fn(ClientSubscription) -> ActionView {
    |c: ClientSubscription|
        ActionView::Deliver { to: c.events_tx, message: DeliveryView::Event(event) }
}

/// Wants the subscriptions to a service that receive events on a connection.
pub open spec fn receiving(key: ServiceKey, conn_key: u64) -> spec_fn(ClientSubscription) -> bool {
    |c: ClientSubscription| receives(c, key, conn_key)
}

/// An event goes, once each, to the subscriptions to its service on the connection on which
/// it came, and to no other: neither to other services, nor to other connections, nor to
/// subscriptions with a socket of their own.
pub proof fn events_reach_their_subscriptions(
    subs: Seq<ClientSubscription>,
    key: ServiceKey,
    conn_key: u64,
    event: EventView,
    n: int,
)
    requires
        0 <= n <= subs.len(),
    ensures
        event_to_subscriptions(subs, key, conn_key, event, n) == subs.take(n).filter(
            receiving(key, conn_key),
        ).map_values(delivered(event)),
    decreases n,
{
    let p = receiving(key, conn_key);
    let d = delivered(event);
    reveal(Seq::filter);
    if n > 0 {
        events_reach_their_subscriptions(subs, key, conn_key, event, n - 1);
        crate::rows::lemma_filter_step(subs, n - 1, p);
        let before = subs.take(n - 1).filter(p);
        if p(subs[n - 1]) {
            assert(before.push(subs[n - 1]).map_values(d) =~= before.map_values(d).push(
                d(subs[n - 1]),
            ));
        }
    } else {
        assert(subs.take(0) =~= Seq::<ClientSubscription>::empty());
        assert(subs.take(0).filter(p).map_values(d) =~= Seq::<ActionView>::empty());
    }
}

/// Withdrawing an offer undoes it, and its withdrawal is announced with lifetime 0; no event
/// of the service stays registered.
pub proof fn withdrawing_undoes_offering(
    s: StateView,
    key: ServiceKey,
    offered: OfferedService,
    now: u64,
    other: ServiceKey,
    event_id: u16,
)
    requires
        s.wf(),
        !has_key(s.offered, key),
    ensures
        ({
            let during = after_offer_command(s, key, offered, now);
            let after = after_stop_offer_command(during, key);
            let acts = stop_offer_command_actions(during, key);
            &&& lookup(during.offered, key) == Some(offered)
            &&& during.pending_initial_offers.last() == key
            &&& after.offered == s.offered
            &&& !after.registered_events.contains((key, event_id))
            &&& other != key ==> (after.registered_events.contains((other, event_id)) <==>
                s.registered_events.contains((other, event_id)))
            &&& acts.len() == 1
            &&& acts[0] is SendSd
            &&& acts[0]->SendSd_target == s.config.multicast_target()
            &&& acts[0]->SendSd_message.entries.len() == 1
            &&& acts[0]->SendSd_message.entries[0].entry_type is OfferService
            &&& acts[0]->SendSd_message.entries[0].stops()
        }),
{
    lemma_put(s.offered, key, offered);
    let during = after_offer_command(s, key, offered, now);
    crate::rows::lemma_filter_push(
        s.offered,
        (key, offered),
        crate::table::key_differs::<ServiceKey, OfferedService>(key),
    );
    lemma_without(s.offered, key);
    assert(after_stop_offer_command(during, key).offered =~= s.offered);
    crate::rows::lemma_filter_contains(
        s.registered_events,
        of_other_service(key),
        (key, event_id),
    );
    crate::rows::lemma_filter_contains(
        s.registered_events,
        of_other_service(key),
        (other, event_id),
    );
}

/// An event is registered at most once: where it could be registered, registering it again
/// is refused, and other events of the service are not affected.
pub proof fn events_are_registered_once(s: StateView, key: ServiceKey, event_id: u16, other: u16)
    requires
        register_refusal(s, key, event_id) is None,
    ensures
        ({
            let t = StateView {
                registered_events: s.registered_events.push((key, event_id)),
                ..s
            };
            &&& register_refusal(t, key, event_id) is Some
            &&& other != event_id ==> register_refusal(t, key, other) == register_refusal(
                s,
                key,
                other,
            )
        }),
{
    let before = s.registered_events;
    let after = before.push((key, event_id));
    assert(after[before.len() as int] == (key, event_id));
    if other != event_id {
        if before.contains((key, other)) {
            let i = choose|i: int| 0 <= i < before.len() && before[i] == (key, other);
            assert(after[i] == (key, other));
        }
        if after.contains((key, other)) {
            let i = choose|i: int| 0 <= i < after.len() && after[i] == (key, other);
            assert(before[i] == (key, other));
        }
    }
}

proof fn lemma_first_match(
    discovered: Seq<(ServiceKey, DiscoveredService)>,
    key: ServiceKey,
    i: int,
)
    requires
        0 <= i <= discovered.len(),
    ensures
        first_match(discovered, key, i) matches Some(e) ==> discovered.contains(e)
            && e.0.matching(key),
        first_match(discovered, key, i) is None ==> forall|j: int|
            i <= j < discovered.len() ==> !(#[trigger] discovered[j]).0.matching(key),
    decreases discovered.len() - i,
{
    if i < discovered.len() {
        lemma_first_match(discovered, key, i + 1);
        assert(discovered.contains(discovered[i]));
    }
}

/// A search is answered at once exactly by a known service that matches it, with an endpoint
/// of that service; otherwise the group is asked, and the search stays until it is ended.
pub proof fn searches_find_known_services(s: StateView, key: ServiceKey, notify: ChannelId, now: u64)
    requires
        s.wf(),
    ensures
        known_availability(s, key) matches Some(ServiceAvailability::Available {
            endpoint,
            transport,
            instance_id,
            major_version,
        }) ==> ({
            let k = ServiceKey { service_id: key.service_id, instance_id, major_version };
            &&& k.matching(key)
            &&& lookup(s.discovered, k) matches Some(d)
            &&& d.endpoint(s.config.preferred() == Transport::Tcp) == Some((endpoint, transport))
            &&& find_action(s, key, notify) is Deliver
            &&& after_find(s, key, notify, now) == s
        }),
        known_availability(s, key) is None ==> {
            &&& find_action(s, key, notify) is SendSd
            &&& has_key(after_find(s, key, notify, now).find_requests, key)
        },
        (forall|i: int| 0 <= i < s.discovered.len() ==> !(#[trigger] s.discovered[i]).0.matching(key))
            ==> known_availability(s, key) is None,
{
    lemma_first_match(s.discovered, key, 0);
    if let Some(e) = first_match(s.discovered, key, 0) {
        let i = choose|i: int| 0 <= i < s.discovered.len() && s.discovered[i] == e;
        lemma_lookup_at(s.discovered, i);
        assert(e.0 == (ServiceKey {
            service_id: key.service_id,
            instance_id: e.0.instance_id,
            major_version: e.0.major_version,
        }));
    }
    lemma_put(
        s.find_requests,
        key,
        FindRequest {
            notify,
            repetitions_left: crate::config::DEFAULT_FIND_REPETITIONS,
            last_find: now,
        },
    );
}

/// Ending a search that the group was asked undoes it.
pub proof fn ending_undoes_searching(s: StateView, key: ServiceKey, notify: ChannelId, now: u64)
    requires
        s.wf(),
        !has_key(s.find_requests, key),
        known_availability(s, key) is None,
    ensures
        without(after_find(s, key, notify, now).find_requests, key) == s.find_requests,
{
    let request = FindRequest {
        notify,
        repetitions_left: crate::config::DEFAULT_FIND_REPETITIONS,
        last_find: now,
    };
    crate::rows::lemma_filter_push(
        s.find_requests,
        (key, request),
        crate::table::key_differs::<ServiceKey, FindRequest>(key),
    );
    lemma_without(s.find_requests, key);
}

/// Wants the services that are offered.
pub open spec fn offered_in(offered: Seq<(ServiceKey, OfferedService)>) -> spec_fn(
    ServiceKey,
) -> bool {
    |key: ServiceKey| has_key(offered, key)
}

/// An entry offers a service.
pub open spec fn offers(e: crate::discovery::SdEntry, key: ServiceKey) -> bool {
    e.entry_type is OfferService && e.service_id == key.service_id && e.instance_id
        == key.instance_id
}

/// The offers that were held back share one message, which offers each of them that is still
/// offered, in order, and nothing else. No service is lost by it.
pub proof fn held_back_offers_share_a_message(s: StateView, now: u64, n: int)
    requires
        s.wf(),
        0 <= n <= s.pending_initial_offers.len(),
    ensures
        ({
            let (offered, message) = initial_offers(s, now, n);
            let keys = s.pending_initial_offers.take(n).filter(offered_in(s.offered));
            &&& message.entries.len() == keys.len()
            &&& forall|i: int|
                0 <= i < keys.len() ==> offers(#[trigger] message.entries[i], keys[i])
            &&& distinct(offered)
            &&& forall|k: ServiceKey| #[trigger] has_key(offered, k) <==> has_key(s.offered, k)
        }),
    decreases n,
{
    reveal(Seq::filter);
    let p = offered_in(s.offered);
    if n > 0 {
        held_back_offers_share_a_message(s, now, n - 1);
        let (offered, message) = initial_offers(s, now, n - 1);
        let key = s.pending_initial_offers[n - 1];
        crate::rows::lemma_filter_step(s.pending_initial_offers, n - 1, p);
        assert(has_key(offered, key) <==> has_key(s.offered, key));
        if let Some(o) = lookup(offered, key) {
            lemma_put(offered, key, OfferedService { last_offer: now, ..o });
            let before = s.pending_initial_offers.take(n - 1).filter(p);
            let after = initial_offers(s, now, n).1;
            assert forall|i: int| 0 <= i < before.len() + 1 implies offers(
                #[trigger] after.entries[i],
                before.push(key)[i],
            ) by {
                if i < before.len() {
                    assert(after.entries[i] == message.entries[i]);
                }
            }
        }
    } else {
        assert(s.pending_initial_offers.take(0) =~= Seq::<ServiceKey>::empty());
        assert(s.pending_initial_offers.take(0).filter(p) =~= Seq::<ServiceKey>::empty());
    }
}

/// Wants the searches that a service matches.
pub open spec fn matched_by(key: ServiceKey) -> spec_fn((ServiceKey, FindRequest)) -> bool {
    |e: (ServiceKey, FindRequest)| e.0.matching(key)
}

/// The answer to a search.
pub open spec fn answered(availability: ServiceAvailability) -> spec_fn(
    (ServiceKey, FindRequest),
) -> EffectView {
    |e: (ServiceKey, FindRequest)|
        EffectView::Deliver {
            to: e.1.notify,
            message: DeliveryView::Availability(availability),
        }
}

/// A service that appears answers every search that it matches, once, and no other.
pub proof fn found_services_answer_matching_searches(
    finds: Seq<(ServiceKey, FindRequest)>,
    key: ServiceKey,
    availability: ServiceAvailability,
    n: int,
)
    requires
        0 <= n <= finds.len(),
    ensures
        searches_answered(finds, key, availability, n) == finds.take(n).filter(
            matched_by(key),
        ).map_values(answered(availability)),
    decreases n,
{
    let p = matched_by(key);
    let d = answered(availability);
    reveal(Seq::filter);
    if n > 0 {
        found_services_answer_matching_searches(finds, key, availability, n - 1);
        crate::rows::lemma_filter_step(finds, n - 1, p);
        let before = finds.take(n - 1).filter(p);
        if p(finds[n - 1]) {
            assert(before.push(finds[n - 1]).map_values(d) =~= before.map_values(d).push(
                d(finds[n - 1]),
            ));
        }
    } else {
        assert(finds.take(0) =~= Seq::<(ServiceKey, FindRequest)>::empty());
        assert(finds.take(0).filter(p).map_values(d) =~= Seq::<EffectView>::empty());
    }
}

/// An offer makes a service known until its lifetime has passed, which the longest never does;
/// and a withdrawal makes it unknown again, with all subscriptions to it.
pub proof fn offers_make_services_known(
    s: StateView,
    entry: crate::discovery::SdEntry,
    m: SdMessageView,
    from: SocketAddr,
    now: u64,
    later: u64,
)
    requires
        s.wf(),
        usable(s, entry, m, from, now) is Some,
    ensures
        ({
            let t = after_offer(s, entry, m, from, now);
            let key = entry_key(entry);
            &&& lookup(t.discovered, key) == Some(announced(entry, m, from, now))
            &&& has_key(after_periodic(t, later).discovered, key) <==> entry.ttl == SD_TTL_INFINITE
                || later < now + entry.ttl * SECOND
            &&& !has_key(after_stop_offer(t, entry).discovered, key)
            &&& forall|i: int|
                0 <= i < after_stop_offer(t, entry).subscriptions.len() ==> (
                #[trigger] after_stop_offer(t, entry).subscriptions[i]).service != key
        }),
{
    let key = entry_key(entry);
    let d = announced(entry, m, from, now);
    lemma_put(s.discovered, key, d);
    let known = StateView { discovered: put(s.discovered, key, d), ..s };
    let t = after_offer(s, entry, m, from, now);
    let (_, transport) = usable(s, entry, m, from, now)->0;
    renewing_only_queues(known, key, entry.ttl, transport, from, now);
    assert(t.discovered == known.discovered);
    lemma_filter_distinct(t.discovered, still_offered(later));
    assert(entry.ttl != SD_TTL_INFINITE ==> d.ttl_expires == now + entry.ttl * SECOND);
    let kept = lookup(t.discovered.filter(still_offered(later)), key);
    assert(kept is Some <==> later < d.ttl_expires);
    lemma_without(t.discovered, key);
    let u = after_stop_offer(t, entry);
    let p = to_other_service(key);
    assert forall|i: int| 0 <= i < u.subscriptions.len() implies (
    #[trigger] u.subscriptions[i]).service != key by {
        assert(u.subscriptions.contains(u.subscriptions[i]));
        crate::rows::lemma_filter_contains(t.subscriptions, p, u.subscriptions[i]);
    }
}

/// The state differs at most in the discovery messages that are held back.
pub open spec fn only_queued(s: StateView, t: StateView) -> bool {
    t == (StateView {
        pending_unicast_sd: t.pending_unicast_sd,
        pending_unicast_sd_deadline: t.pending_unicast_sd_deadline,
        ..s
    })
}

/// The renewal of subscriptions only queues messages: it changes nothing else.
pub proof fn renewing_only_queues(
    s: StateView,
    key: ServiceKey,
    offer_ttl: u32,
    transport: Transport,
    from: SocketAddr,
    now: u64,
)
    ensures
        only_queued(s, subscriptions_renewed(s, key, offer_ttl, transport, from, now)),
{
    if let Some(ip) = reachable_ip(s) {
        let subs = s.subscriptions.filter(to_service(key));
        let ttl = subscription_ttl(s.config.subscribe_ttl, offer_ttl);
        lemma_renewed_only_queued(s, subs, key, ip, ttl, transport, from, now, subs.len() as int);
    }
}

proof fn lemma_renewed_only_queued(
    s: StateView,
    subs: Seq<ClientSubscription>,
    key: ServiceKey,
    ip: IpAddr,
    ttl: u32,
    transport: Transport,
    from: SocketAddr,
    now: u64,
    n: int,
)
    ensures
        only_queued(s, renewed(s, subs, key, ip, ttl, transport, from, now, n)),
    decreases n,
{
    if n > 0 {
        lemma_renewed_only_queued(s, subs, key, ip, ttl, transport, from, now, n - 1);
    }
}

/// The message that renews a subscription.
pub open spec fn renewal(
    s: StateView,
    key: ServiceKey,
    c: ClientSubscription,
    ip: IpAddr,
    ttl: u32,
    transport: Transport,
    from: SocketAddr,
) -> ActionView {
    ActionView::SendSd {
        message: subscribe_message(
            key,
            seq![c.eventgroup_id],
            ip,
            c.local_endpoint.port,
            s.flags(true),
            ttl,
            transport_for(c, transport),
        ),
        target: from,
    }
}

proof fn lemma_renewals(
    s: StateView,
    subs: Seq<ClientSubscription>,
    key: ServiceKey,
    ip: IpAddr,
    ttl: u32,
    transport: Transport,
    from: SocketAddr,
    now: u64,
    n: int,
)
    requires
        0 <= n <= subs.len(),
    ensures
        renewed(s, subs, key, ip, ttl, transport, from, now, n).pending_unicast_sd
            == s.pending_unicast_sd + subs.take(n).map_values(
            |c: ClientSubscription| renewal(s, key, c, ip, ttl, transport, from),
        ),
    decreases n,
{
    let f = |c: ClientSubscription| renewal(s, key, c, ip, ttl, transport, from);
    if n > 0 {
        lemma_renewals(s, subs, key, ip, ttl, transport, from, now, n - 1);
        crate::rows::lemma_take_step(subs, n - 1);
        assert(subs.take(n).map_values(f) =~= subs.take(n - 1).map_values(f).push(f(subs[n - 1])));
    }
    assert(renewed(s, subs, key, ip, ttl, transport, from, now, n).pending_unicast_sd
        =~= s.pending_unicast_sd + subs.take(n).map_values(f));
}

/// An offer renews every subscription to its service, each once and with its own port, for the
/// longer of the configured lifetime and the offer's; where subscriptions never end, none is
/// renewed.
pub proof fn an_offer_renews_every_subscription(
    s: StateView,
    entry: crate::discovery::SdEntry,
    m: SdMessageView,
    from: SocketAddr,
    now: u64,
)
    requires
        usable(s, entry, m, from, now) is Some,
        reachable_ip(s) is Some,
    ensures
        ({
            let t = after_offer(s, entry, m, from, now);
            let key = entry_key(entry);
            let (_, transport) = usable(s, entry, m, from, now)->0;
            let configured = s.config.subscribe_ttl;
            let ttl = if configured < entry.ttl {
                entry.ttl
            } else {
                configured
            };
            t.pending_unicast_sd == (if configured == SD_TTL_INFINITE {
                s.pending_unicast_sd
            } else {
                s.pending_unicast_sd + s.subscriptions.filter(to_service(key)).map_values(
                    |c: ClientSubscription|
                        renewal(s, key, c, reachable_ip(s)->0, ttl, transport, from),
                )
            })
        }),
{
    let key = entry_key(entry);
    let (_, transport) = usable(s, entry, m, from, now)->0;
    let known = StateView {
        discovered: put(s.discovered, key, announced(entry, m, from, now)),
        ..s
    };
    let ip = reachable_ip(s)->0;
    let ttl = subscription_ttl(s.config.subscribe_ttl, entry.ttl);
    let subs = s.subscriptions.filter(to_service(key));
    let n = subs.len() as int;
    lemma_renewals(known, subs, key, ip, ttl, transport, from, now, n);
    assert(subs.take(n) =~= subs);
    assert(subs.map_values(
        |c: ClientSubscription| renewal(known, key, c, ip, ttl, transport, from),
    ) =~= subs.map_values(
        |c: ClientSubscription| renewal(s, key, c, ip, ttl, transport, from),
    ));
}

/// A service instance is offered once: a second offer of it is refused and changes nothing,
/// whether it is refused before its sockets are opened or after.
pub proof fn a_service_is_offered_once(
    s: StateView,
    offer: PendingOffer,
    offer_config: OfferConfig,
    udp: SocketOutcome,
    tcp: SocketOutcome,
    now: u64,
)
    requires
        has_key(s.offered, offer.key()),
    ensures
        offer_reaction(s, offer, offer_config) == (
            s,
            seq![
                EffectView::Deliver {
                    to: offer.response,
                    message: DeliveryView::Offered(Err(ErrorView::AlreadyOffered)),
                },
            ],
        ),
        sockets_handled(s, offer, udp, tcp, now) == (
            s,
            seq![
                ActionView::Deliver {
                    to: offer.response,
                    message: DeliveryView::Offered(Err(ErrorView::AlreadyOffered)),
                },
            ],
        ),
{
}

/// The periodic tasks drop exactly what has outlived its time: a service whose offer has
/// ended, a client whose subscription has ended, and a search without repetitions left. A
/// subscription without end never ends, and a search is repeated at most once per cycle.
pub proof fn time_drops_exactly_what_has_ended(
    s: StateView,
    now: u64,
    key: ServiceKey,
    slot: SubscriberSlot,
)
    requires
        s.wf(),
    ensures
        ({
            let t = after_periodic(s, now);
            &&& lookup(t.discovered, key) == (match lookup(s.discovered, key) {
                Some(d) => if now < d.ttl_expires {
                    Some(d)
                } else {
                    None
                },
                None => None,
            })
            &&& lookup(t.server_subscribers, slot) == (match lookup(s.server_subscribers, slot) {
                Some(sub) => match sub.expires_at {
                    None => Some(sub),
                    Some(at) => if now < at {
                        Some(sub)
                    } else {
                        None
                    },
                },
                None => None,
            })
            &&& lookup(s.find_requests, key) matches Some(f) ==> (match lookup(
                t.find_requests,
                key,
            ) {
                Some(g) => {
                    &&& f.repetitions_left > 0
                    &&& g.notify == f.notify
                    &&& g == f || (g.repetitions_left == f.repetitions_left - 1 && g.last_find
                        == now)
                },
                None => f.repetitions_left == 0,
            })
        }),
{
    lemma_filter_distinct(s.discovered, still_offered(now));
    lemma_filter_distinct(s.server_subscribers, still_subscribed(now));
    lemma_filter_distinct(s.find_requests, still_searching());
    crate::table::lemma_map_table(
        s.find_requests.filter(still_searching()),
        crate::runtime::periodic::searched_again(s.config.cyclic_offer_delay, now),
    );
}

/// A host that has rebooted is forgotten, and nothing else: neither its subscriptions nor
/// its services stay, nor subscriptions to its services.
pub proof fn a_rebooted_host_is_forgotten(
    s: StateView,
    peer: IpAddr,
    slot: SubscriberSlot,
    key: ServiceKey,
    c: ClientSubscription,
)
    requires
        s.wf(),
    ensures
        ({
            let t = peer_expired(s, peer);
            &&& lookup(t.server_subscribers, slot) == (if slot.endpoint.ip == peer {
                None
            } else {
                lookup(s.server_subscribers, slot)
            })
            &&& lookup(t.discovered, key) == (match lookup(s.discovered, key) {
                Some(d) => if d.runs_on(peer) {
                    None
                } else {
                    Some(d)
                },
                None => None,
            })
            &&& t.subscriptions.contains(c) <==> s.subscriptions.contains(c) && !known_on(
                s.discovered,
                c.service,
                peer,
            )
        }),
{
    lemma_filter_distinct(s.server_subscribers, not_from(peer));
    lemma_filter_distinct(s.discovered, not_on(peer));
    crate::rows::lemma_filter_contains(s.subscriptions, not_to(s.discovered, peer), c);
}

/// A discovery message takes the next session of its own channel, which its unicast flag
/// names, and leaves the other channel's sessions alone.
pub proof fn messages_take_their_channels_sessions(
    s: StateView,
    message: SdMessageView,
    target: SocketAddr,
)
    ensures
        ({
            let (t, effects) = executed(s, ActionView::SendSd { message, target });
            let unicast = message.flags & FLAG_UNICAST != 0;
            &&& effects == seq![
                EffectView::SendSd {
                    data: message.bytes(
                        if unicast {
                            s.unicast_session_id
                        } else {
                            s.multicast_session_id
                        },
                    ),
                    target,
                },
            ]
            &&& unicast ==> t == s.unicast_session_used() && t.multicast_session_id
                == s.multicast_session_id
            &&& !unicast ==> t == s.multicast_session_used() && t.unicast_session_id
                == s.unicast_session_id
        }),
{
}

/// What is no message of the protocol changes nothing, and service discovery and services
/// are kept apart: a discovery message does nothing on the other sockets, and any other
/// message does nothing on the discovery socket.
pub proof fn foreign_messages_change_nothing(
    s: StateView,
    data: Seq<u8>,
    from: SocketAddr,
    arrival: Arrival,
    reply: ChannelId,
    now: u64,
)
    ensures
        split_message(data) is None ==> {
            &&& sd_packet_handled(s, data, from, now) == (s, Seq::<ActionView>::empty())
            &&& message_handled(s, data, from, arrival, reply) == (s, Seq::<ActionView>::empty())
        },
        split_message(data) matches Some((h, _)) ==> {
            &&& h.service_id != SD_SERVICE_ID || h.method_id != SD_METHOD_ID ==> sd_packet_handled(
                s,
                data,
                from,
                now,
            ) == (s, Seq::<ActionView>::empty())
            &&& h.service_id == SD_SERVICE_ID || h.protocol_version != PROTOCOL_VERSION
                ==> message_handled(s, data, from, arrival, reply) == (
                s,
                Seq::<ActionView>::empty(),
            )
        },
{
}

} // verus!
