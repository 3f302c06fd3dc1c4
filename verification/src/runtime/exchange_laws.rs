//! What holds of two hosts that exchange messages: what one of them sends is understood by
//! the other.

use crate::buffer::content;
use crate::config::Transport;
use crate::discovery::{
    sd_message_framing, sd_payload_round_trip, sd_payload_size, SdEntry, SdMessageView,
};
use crate::error::Error;
use crate::ids::{return_code_of, EventId, ReturnCode};
use crate::message::{
    ChannelId, DeliveryView, EventView, Reply, ResponseView, SdEvent, ServiceAvailability,
    ServiceRequestView,
};
use crate::net::{IpAddr, SocketAddr};
use crate::runtime::action::{ActionView, PendingServerResponse};
use crate::runtime::client::{after_call, event_in, service_at};
use crate::runtime::cluster::{by_target, clustered, not_sd};
use crate::runtime::event_loop::{
    answer_bytes, message_handled, reaction, sd_packet_handled, split_message, Arrival, LoopEvent,
    LoopView,
};
use crate::runtime::execute::{executed_all, EffectView};
use crate::runtime::incoming::{
    entries_handled, entry_handled, sd_handled, session_noted, shows_reboot,
};
use crate::runtime::laws::{
    a_response_reaches_its_call, answered, delivered, events_reach_their_subscriptions,
    found_services_answer_matching_searches, matched_by, receiving, renewing_only_queues,
};
use crate::runtime::rpc::{
    message_round_trip, notification_bytes, request_bytes, response_type, rpc_header,
};
use crate::runtime::sd::{
    offer_message, offer_names_its_endpoints, subscribe_entry, subscribe_message,
};
use crate::runtime::sd_client::{
    after_ack, announced, multi_key, offer_actions, offer_end, pending_key, usable,
};
use crate::runtime::sd_server::{ack_message, entry_key, expiry, slot_of, subscribe_actions};
use crate::runtime::server::first_offer_of;
use crate::runtime::state::{
    CallKey, ClientSubscription, OfferedService, PendingCall, PendingSubscription,
    ServerSubscription, ServiceKey, StateView,
};
use crate::runtime::subscribe::is_awaited;
use crate::runtime::subscription_laws::{
    a_subscription_reaches_its_server, an_acknowledgement_completes_the_subscription,
    an_answer_ends_the_wait, only_deliveries,
};
use crate::table::{distinct, has_key, lemma_put, lemma_without, lookup, put};
use crate::wire::{header_round_trip, Header, MessageType, SD_SERVICE_ID};
use vstd::prelude::*;

verus! {

/// A message of this header and payload is split into them.
proof fn lemma_message_split(h: Header, payload: Seq<u8>)
    requires
        payload.len() + 8 <= u32::MAX,
        h == rpc_header(
            h.service_id,
            h.method_id,
            h.client_id,
            h.session_id,
            h.interface_version,
            h.message_type,
            h.return_code,
            payload.len() as int,
        ),
    ensures
        split_message(h.bytes() + payload) == Some((h, payload)),
        h.payload_len() == payload.len(),
        payload.subrange(0, h.payload_len()) == payload,
{
    message_round_trip(h, payload);
    let data = h.bytes() + payload;
    header_round_trip(h, payload);
    assert(data.subrange(16, data.len() as int) =~= payload);
    assert(payload.subrange(0, h.payload_len()) =~= payload);
}

/// A message from a client arrives where a service is offered, over one of its transports.
pub open spec fn arrives_at(
    server: StateView,
    arrival: Arrival,
    key: ServiceKey,
    offered: OfferedService,
) -> bool {
    match arrival {
        Arrival::Udp { service_key } => {
            &&& service_key == Some(key)
            &&& lookup(server.offered, key) == Some(offered)
            &&& offered.udp_transport is Some
        },
        Arrival::TcpServer { .. } => {
            &&& first_offer_of(server.offered, key.service_id, 0) matches Some(i)
                && server.offered[i] == (key, offered)
            &&& lookup(server.offered, key) == Some(offered)
            &&& offered.tcp_transport is Some
        },
        Arrival::TcpClient { .. } => false,
    }
}

/// The transport of a message.
pub open spec fn transport_of(arrival: Arrival) -> Transport {
    match arrival {
        Arrival::Udp { .. } => Transport::Udp,
        Arrival::TcpServer { .. } => Transport::Tcp,
        Arrival::TcpClient { .. } => Transport::Tcp,
    }
}

/// A call reaches its service: the service gets the method and the payload, and what is kept
/// for its answer names the caller.
pub proof fn a_call_reaches_its_service(
    server: StateView,
    key: ServiceKey,
    offered: OfferedService,
    method_id: u16,
    client_id: u16,
    session_id: u16,
    payload: Seq<u8>,
    from: SocketAddr,
    arrival: Arrival,
    reply: ChannelId,
)
    requires
        payload.len() + 8 <= u32::MAX,
        key.service_id != SD_SERVICE_ID,
        method_id < 0x8000,
        arrives_at(server, arrival, key, offered),
    ensures
        ({
            let request = request_bytes(
                key.service_id,
                method_id,
                client_id,
                session_id,
                1,
                payload,
            );
            let (after, actions) = message_handled(server, request, from, arrival, reply);
            let context = actions[0]->DeliverRequest_context->0;
            &&& after == server
            &&& actions == seq![
                ActionView::DeliverRequest {
                    to: offered.requests_tx,
                    request: ServiceRequestView::MethodCall {
                        method_id,
                        payload,
                        client: from,
                        transport: transport_of(arrival),
                        response: reply,
                    },
                    context: Some(context),
                    reply,
                },
            ]
            &&& context.client_addr == from
            &&& (context.service_id, context.method_id) == (key.service_id, method_id)
            &&& (context.client_id, context.session_id) == (client_id, session_id)
        }),
{
    let h = rpc_header(
        key.service_id,
        method_id,
        client_id,
        session_id,
        1,
        MessageType::Request,
        0,
        payload.len() as int,
    );
    lemma_message_split(h, payload);
}

/// The answer of a service reaches the call that it answers: the caller gets the payload, or
/// hears with which code the service has refused, or that it has failed.
pub proof fn an_answer_reaches_its_caller(
    client: StateView,
    response: ChannelId,
    context: PendingServerResponse,
    result: Result<Reply, Error>,
    from: SocketAddr,
    arrival: Arrival,
    reply: ChannelId,
)
    requires
        client.wf(),
        context.service_id != SD_SERVICE_ID,
        context.client_id == client.client_id,
        context.session_id == client.payload_session_id,
        result matches Ok(Reply::Payload(payload)) ==> content(payload).len() + 8 <= u32::MAX,
    ensures
        ({
            let calling = after_call(client, response);
            let (after, actions) = message_handled(
                calling,
                answer_bytes(context, result),
                from,
                arrival,
                reply,
            );
            &&& actions == seq![
                ActionView::Deliver {
                    to: response,
                    message: DeliveryView::CallResult(
                        match result {
                            Ok(Reply::Payload(payload)) => ResponseView {
                                return_code: ReturnCode::Okay,
                                payload: content(payload),
                            },
                            Ok(Reply::Refused(error)) => ResponseView {
                                return_code: return_code_of(error.raw()),
                                payload: Seq::empty(),
                            },
                            Err(_) => ResponseView {
                                return_code: ReturnCode::NotOk,
                                payload: Seq::empty(),
                            },
                        },
                    ),
                },
            ]
            &&& !has_key(
                after.pending_calls,
                CallKey { client_id: client.client_id, session_id: client.payload_session_id },
            )
        }),
{
    let (code, payload, exception) = match result {
        Ok(Reply::Payload(p)) => (0x00u8, content(p), false),
        Ok(Reply::Refused(e)) => (e.raw(), Seq::<u8>::empty(), context.uses_exception),
        Err(_) => (0x01u8, Seq::<u8>::empty(), context.uses_exception),
    };
    let h = rpc_header(
        context.service_id,
        context.method_id,
        context.client_id,
        context.session_id,
        context.interface_version,
        response_type(code, exception),
        code,
        payload.len() as int,
    );
    lemma_message_split(h, payload);
    let made = CallKey {
        client_id: client.client_id,
        session_id: client.payload_session_id,
    };
    a_response_reaches_its_call(client, response, h, payload, made);
    let calling = after_call(client, response);
    lemma_put(
        client.pending_calls,
        made,
        PendingCall { response },
    );
    lemma_without(calling.pending_calls, made);
}

/// The connection on which events arrive.
pub open spec fn connection_of(arrival: Arrival) -> u64 {
    match arrival {
        Arrival::Udp { .. } => 0,
        Arrival::TcpServer { conn_key } => conn_key,
        Arrival::TcpClient { conn_key } => conn_key,
    }
}

/// An event that a server sends reaches a client's subscription to its service, with its
/// payload: on the connection of the subscription, or on the socket of its own.
pub proof fn an_event_reaches_its_subscriber(
    client: StateView,
    key: ServiceKey,
    event_id: u16,
    server_id: u16,
    payload: Seq<u8>,
    from: SocketAddr,
    arrival: Arrival,
    reply: ChannelId,
    c: ClientSubscription,
)
    requires
        payload.len() + 8 <= u32::MAX,
        key.service_id != SD_SERVICE_ID,
        EventId::allowed(event_id),
        service_at(client.discovered, key.service_id, from, 0) == Some(key),
        client.subscriptions.contains(c),
        c.service == key,
        !c.has_dedicated_socket ==> c.tcp_conn_key == connection_of(arrival),
    ensures
        ({
            let data = notification_bytes(key.service_id, event_id, server_id, 0, 1, payload);
            let event = EventView { event_id, payload };
            let (after, actions) = message_handled(client, data, from, arrival, reply);
            &&& after == client
            &&& !c.has_dedicated_socket ==> actions.contains(
                ActionView::Deliver { to: c.events_tx, message: DeliveryView::Event(event) },
            )
            &&& event_in(data) == Some(event)
        }),
{
    let h = rpc_header(
        key.service_id,
        event_id,
        server_id,
        0,
        1,
        MessageType::Notification,
        0,
        payload.len() as int,
    );
    lemma_message_split(h, payload);
    let data = h.bytes() + payload;
    assert(data.subrange(16, 16 + h.payload_len()) =~= payload);
    let event = EventView { event_id, payload };
    let conn_key = connection_of(arrival);
    let subs = client.subscriptions;
    if !c.has_dedicated_socket {
        events_reach_their_subscriptions(subs, key, conn_key, event, subs.len() as int);
        assert(subs.take(subs.len() as int) =~= subs);
        let p = receiving(key, conn_key);
        crate::rows::lemma_filter_contains(subs, p, c);
        let chosen = subs.filter(p);
        let i = choose|i: int| 0 <= i < chosen.len() && chosen[i] == c;
        let sent = chosen.map_values(delivered(event));
        assert(sent[i] == delivered(event)(c));
        let (_, actions) = message_handled(client, data, from, arrival, reply);
        assert(actions[i] == sent[i]);
    }
}

/// A discovery message of one entry is split and read as it was written.
proof fn lemma_sd_read(m: SdMessageView, session_id: u16, s: StateView, from: SocketAddr, now: u64)
    requires
        m.entries.len() == 1,
        m.entries[0].encodable(),
        m.options.len() <= 2,
    ensures
        sd_packet_handled(s, m.bytes(session_id), from, now) == sd_handled(
            s,
            m.header(session_id),
            m.payload(),
            from,
            now,
        ),
        SdMessageView::parsed(m.payload()) == Some(m),
{
    sd_payload_size(m);
    sd_payload_round_trip(m);
    sd_message_framing(m, session_id);
    let data = m.bytes(session_id);
    header_round_trip(m.header(session_id), m.payload());
    assert(data.subrange(16, data.len() as int) =~= m.payload());
}

/// What is no discovery message is not touched by clustering.
proof fn lemma_nothing_to_cluster(actions: Seq<ActionView>)
    requires
        forall|i: int| 0 <= i < actions.len() ==> !((#[trigger] actions[i]) is SendSd),
    ensures
        clustered(actions) == actions,
{
    crate::rows::lemma_filter_all(actions, not_sd());
    lemma_no_targets(actions);
    assert(clustered(actions) =~= actions);
}

proof fn lemma_no_targets(actions: Seq<ActionView>)
    requires
        forall|i: int| 0 <= i < actions.len() ==> !((#[trigger] actions[i]) is SendSd),
    ensures
        by_target(actions).len() == 0,
    decreases actions.len(),
{
    if actions.len() > 0 {
        let before = actions.drop_last();
        assert forall|i: int| 0 <= i < before.len() implies !((#[trigger] before[i]) is SendSd) by {
            assert(before[i] == actions[i]);
        }
        lemma_no_targets(before);
        assert(!(actions[actions.len() - 1] is SendSd));
    }
}

proof fn lemma_offer_entry(
    key: ServiceKey,
    offered: OfferedService,
    flags: u8,
    ttl: u32,
    advertised_ip: Option<IpAddr>,
    from: SocketAddr,
    now: u64,
)
    requires
        0 < ttl <= 0xFF_FFFF,
        offered.major_version == key.major_version,
        offered.udp_endpoint is Some || offered.tcp_endpoint is Some,
    ensures
        ({
            let m = offer_message(key, offered, flags, ttl, advertised_ip);
            let e = m.entries[0];
            let known = announced(e, m, from, now);
            &&& m.flags == flags
            &&& m.entries.len() == 1
            &&& m.options.len() <= 2
            &&& e.encodable()
            &&& e.entry_type is OfferService
            &&& !e.stops()
            &&& entry_key(e) == key
            &&& known.udp_endpoint is Some <==> offered.udp_endpoint is Some
            &&& known.tcp_endpoint is Some <==> offered.tcp_endpoint is Some
            &&& known.ttl_expires == offer_end(ttl, now)
            &&& forall|prefer_tcp: bool| (#[trigger] known.endpoint(prefer_tcp)) is Some
        }),
{
    let m = offer_message(key, offered, flags, ttl, advertised_ip);
    assert(m.entries.len() == 1);
    offer_names_its_endpoints(key, offered, flags, ttl, advertised_ip);
}

proof fn lemma_one_entry(
    s: StateView,
    m: SdMessageView,
    session_id: u16,
    from: SocketAddr,
    now: u64,
)
    requires
        m.entries.len() == 1,
        m.entries[0].encodable(),
        m.options.len() <= 2,
        !shows_reboot(s, from.ip, m.flags, session_id),
    ensures
        ({
            let (t, acts) = entry_handled(
                session_noted(s, from.ip, m.flags, session_id),
                Seq::empty(),
                m,
                m.entries[0],
                from,
                now,
            );
            sd_packet_handled(s, m.bytes(session_id), from, now) == (t, clustered(acts))
        }),
{
    lemma_sd_read(m, session_id, s, from, now);
    reveal_with_fuel(entries_handled, 2);
}

proof fn lemma_offer_packet(
    s: StateView,
    key: ServiceKey,
    offered: OfferedService,
    flags: u8,
    ttl: u32,
    advertised_ip: Option<IpAddr>,
    session_id: u16,
    from: SocketAddr,
    now: u64,
)
    requires
        s.wf(),
        0 < ttl <= 0xFF_FFFF,
        offered.major_version == key.major_version,
        offered.udp_endpoint is Some || offered.tcp_endpoint is Some,
        !shows_reboot(s, from.ip, flags, session_id),
    ensures
        ({
            let m = offer_message(key, offered, flags, ttl, advertised_ip);
            let e = m.entries[0];
            let (t, actions) = sd_packet_handled(s, m.bytes(session_id), from, now);
            &&& lookup(t.discovered, key) == Some(announced(e, m, from, now))
            &&& t.find_requests == s.find_requests
            &&& actions == offer_actions(s, e, m, from, now)
        }),
{
    let m = offer_message(key, offered, flags, ttl, advertised_ip);
    let e = m.entries[0];
    lemma_offer_entry(key, offered, flags, ttl, advertised_ip, from, now);
    lemma_one_entry(s, m, session_id, from, now);
    let noted = session_noted(s, from.ip, flags, session_id);
    let known = announced(e, m, from, now);
    let (_, transport) = usable(noted, e, m, from, now)->0;
    lemma_put(s.discovered, key, known);
    let stored = StateView { discovered: put(noted.discovered, key, known), ..noted };
    renewing_only_queues(stored, key, ttl, transport, from, now);
    let actions = offer_actions(noted, e, m, from, now);
    assert(Seq::<ActionView>::empty() + actions =~= actions);
    lemma_nothing_to_cluster(actions);
}

proof fn lemma_search_answered(
    s: StateView,
    key: ServiceKey,
    availability: ServiceAvailability,
    event: SdEvent,
    i: int,
)
    requires
        0 <= i < s.find_requests.len(),
        s.find_requests[i].0.matching(key),
    ensures
        executed_all(
            s,
            seq![
                ActionView::NotifyFound { key, availability },
                ActionView::EmitSdEvent { event },
            ],
            2,
        ).1.contains(
            EffectView::Deliver {
                to: s.find_requests[i].1.notify,
                message: DeliveryView::Availability(availability),
            },
        ),
{
    let finds = s.find_requests;
    found_services_answer_matching_searches(finds, key, availability, finds.len() as int);
    assert(finds.take(finds.len() as int) =~= finds);
    let p = matched_by(key);
    assert(finds.contains(finds[i]));
    crate::rows::lemma_filter_contains(finds, p, finds[i]);
    let chosen = finds.filter(p);
    let k = choose|k: int| 0 <= k < chosen.len() && chosen[k] == finds[i];
    let sent = chosen.map_values(answered(availability));
    assert(sent[k] == answered(availability)(finds[i]));
    let actions = seq![
        ActionView::NotifyFound { key, availability },
        ActionView::EmitSdEvent { event },
    ];
    reveal_with_fuel(executed_all, 3);
    let (_, effects) = executed_all(s, actions, 2);
    assert(effects[k] == sent[k]);
}

proof fn lemma_news_change_nothing(
    s: StateView,
    key: ServiceKey,
    availability: ServiceAvailability,
    event: SdEvent,
)
    ensures
        executed_all(
            s,
            seq![
                ActionView::NotifyFound { key, availability },
                ActionView::EmitSdEvent { event },
            ],
            2,
        ).0 == s,
        executed_all(s, Seq::empty(), 0).0 == s,
{
    reveal_with_fuel(executed_all, 3);
}

/// An offer is found: a host that receives it knows the service from then on, with the
/// endpoints at which it is offered, and a search of that host that the service matches is
/// answered unless the service was known before. The offer of a host that has just rebooted
/// is left aside: such a host is forgotten first.
pub proof fn an_offer_is_found(
    l: LoopView,
    data: Vec<u8>,
    key: ServiceKey,
    offered: OfferedService,
    flags: u8,
    ttl: u32,
    advertised_ip: Option<IpAddr>,
    session_id: u16,
    from: SocketAddr,
    now: u64,
    reply: ChannelId,
    i: int,
)
    requires
        l.wf(),
        data@ == offer_message(key, offered, flags, ttl, advertised_ip).bytes(session_id),
        0 < ttl <= 0xFF_FFFF,
        offered.major_version == key.major_version,
        offered.udp_endpoint is Some || offered.tcp_endpoint is Some,
        !shows_reboot(l.state, from.ip, flags, session_id),
    ensures
        ({
            let m = offer_message(key, offered, flags, ttl, advertised_ip);
            let known = announced(m.entries[0], m, from, now);
            let (after, effects) = reaction(l, LoopEvent::SdPacket { data, from }, now, reply);
            let (searched, search) = l.state.find_requests[i];
            let (endpoint, transport) = known.endpoint(
                l.state.config.preferred() == Transport::Tcp,
            )->0;
            &&& lookup(after.state.discovered, key) == Some(known)
            &&& known.udp_endpoint is Some <==> offered.udp_endpoint is Some
            &&& known.tcp_endpoint is Some <==> offered.tcp_endpoint is Some
            &&& known.ttl_expires == offer_end(ttl, now)
            &&& 0 <= i < l.state.find_requests.len() && searched.matching(key) && !has_key(
                l.state.discovered,
                key,
            ) ==> effects.contains(
                EffectView::Deliver {
                    to: search.notify,
                    message: DeliveryView::Availability(
                        ServiceAvailability::Available {
                            endpoint,
                            transport,
                            instance_id: key.instance_id,
                            major_version: key.major_version,
                        },
                    ),
                },
            )
        }),
{
    let s = l.state;
    let m = offer_message(key, offered, flags, ttl, advertised_ip);
    let e = m.entries[0];
    lemma_offer_entry(key, offered, flags, ttl, advertised_ip, from, now);
    lemma_offer_packet(s, key, offered, flags, ttl, advertised_ip, session_id, from, now);
    let (t, actions) = sd_packet_handled(s, data@, from, now);
    let (endpoint, transport) = usable(s, e, m, from, now)->0;
    let availability = ServiceAvailability::Available {
        endpoint,
        transport,
        instance_id: key.instance_id,
        major_version: key.major_version,
    };
    let event = SdEvent::ServiceAvailable {
        service_id: e.service_id,
        instance_id: e.instance_id,
        major_version: e.major_version,
        minor_version: e.minor_version,
        endpoint,
        ttl: e.ttl,
    };
    lemma_news_change_nothing(t, key, availability, event);
    if 0 <= i < s.find_requests.len() && s.find_requests[i].0.matching(key) && !has_key(
        s.discovered,
        key,
    ) {
        lemma_search_answered(t, key, availability, event, i);
    }
}

#[verifier::rlimit(30)]
proof fn lemma_subscribe_packet(
    s: StateView,
    key: ServiceKey,
    offered: OfferedService,
    eventgroup_id: u16,
    client: SocketAddr,
    flags: u8,
    ttl: u32,
    transport: Transport,
    session_id: u16,
    from: SocketAddr,
    now: u64,
)
    requires
        s.wf(),
        0 < ttl <= 0xFF_FFFF,
        client.ip is V4,
        !client.ip.unspecified(),
        lookup(s.offered, key) == Some(offered),
        match transport {
            Transport::Udp => offered.udp_endpoint is Some,
            Transport::Tcp => offered.tcp_endpoint is Some,
        },
        !shows_reboot(s, from.ip, flags, session_id),
    ensures
        ({
            let m = subscribe_message(
                key,
                seq![eventgroup_id],
                client.ip,
                client.port,
                flags,
                ttl,
                transport,
            );
            let asked = subscribe_entry(key, eventgroup_id, ttl);
            let slot = slot_of(asked, client);
            let (t, actions) = sd_packet_handled(s, m.bytes(session_id), from, now);
            &&& lookup(t.server_subscribers, slot) == Some(
                ServerSubscription { transport, expires_at: expiry(ttl, now) },
            )
            &&& t.pending_unicast_sd == s.pending_unicast_sd.push(
                ActionView::SendSd {
                    message: ack_message(asked, s.flags(true)),
                    target: from,
                },
            )
            &&& actions == (if has_key(s.server_subscribers, slot) {
                Seq::<ActionView>::empty()
            } else {
                seq![
                    ActionView::Deliver {
                        to: offered.requests_tx,
                        message: DeliveryView::Request(
                            ServiceRequestView::Subscribe { eventgroup_id, client, transport },
                        ),
                    },
                ]
            })
        }),
{
    let groups = seq![eventgroup_id];
    let m = subscribe_message(key, groups, client.ip, client.port, flags, ttl, transport);
    let e = m.entries[0];
    assert(e == subscribe_entry(key, eventgroup_id, ttl));
    let noted = session_noted(s, from.ip, flags, session_id);
    lemma_noted_keeps_wf(s, from.ip, flags, session_id);
    a_subscription_reaches_its_server(
        noted,
        key,
        groups,
        client,
        flags,
        ttl,
        transport,
        from,
        now,
        0,
    );
    lemma_one_entry(s, m, session_id, from, now);
    let actions = subscribe_actions(noted, e, m);
    assert(Seq::<ActionView>::empty() + actions =~= actions);
    lemma_nothing_to_cluster(actions);
}

proof fn lemma_delivery_only(s: StateView, to: ChannelId, message: DeliveryView)
    ensures
        executed_all(s, Seq::empty(), 0) == (s, Seq::<EffectView>::empty()),
        executed_all(s, seq![ActionView::Deliver { to, message }], 1) == (
            s,
            seq![EffectView::Deliver { to, message }],
        ),
{
    reveal_with_fuel(executed_all, 2);
    assert(Seq::<EffectView>::empty() + seq![EffectView::Deliver { to, message }] =~= seq![
        EffectView::Deliver { to, message },
    ]);
}

/// A subscription that a client asks for is accepted by a server that offers the service with
/// the same transport: from then on events go to the endpoint that the client has named, for
/// the lifetime that it has asked for, and the acknowledgement is on its way. The service
/// hears of a client that was not subscribed.
pub proof fn a_subscription_is_accepted(
    l: LoopView,
    data: Vec<u8>,
    key: ServiceKey,
    offered: OfferedService,
    eventgroup_id: u16,
    client: SocketAddr,
    flags: u8,
    ttl: u32,
    transport: Transport,
    session_id: u16,
    from: SocketAddr,
    now: u64,
    reply: ChannelId,
)
    requires
        l.wf(),
        data@ == subscribe_message(
            key,
            seq![eventgroup_id],
            client.ip,
            client.port,
            flags,
            ttl,
            transport,
        ).bytes(session_id),
        0 < ttl <= 0xFF_FFFF,
        client.ip is V4,
        !client.ip.unspecified(),
        lookup(l.state.offered, key) == Some(offered),
        match transport {
            Transport::Udp => offered.udp_endpoint is Some,
            Transport::Tcp => offered.tcp_endpoint is Some,
        },
        !shows_reboot(l.state, from.ip, flags, session_id),
    ensures
        ({
            let asked = subscribe_entry(key, eventgroup_id, ttl);
            let slot = slot_of(asked, client);
            let (after, effects) = reaction(l, LoopEvent::SdPacket { data, from }, now, reply);
            let t = after.state;
            &&& lookup(t.server_subscribers, slot) == Some(
                ServerSubscription { transport, expires_at: expiry(ttl, now) },
            )
            &&& t.pending_unicast_sd == l.state.pending_unicast_sd.push(
                ActionView::SendSd {
                    message: ack_message(asked, l.state.flags(true)),
                    target: from,
                },
            )
            &&& effects == (if has_key(l.state.server_subscribers, slot) {
                Seq::<EffectView>::empty()
            } else {
                seq![
                    EffectView::Deliver {
                        to: offered.requests_tx,
                        message: DeliveryView::Request(
                            ServiceRequestView::Subscribe { eventgroup_id, client, transport },
                        ),
                    },
                ]
            })
        }),
{
    lemma_subscribe_packet(
        l.state,
        key,
        offered,
        eventgroup_id,
        client,
        flags,
        ttl,
        transport,
        session_id,
        from,
        now,
    );
    let (t, _) = sd_packet_handled(l.state, data@, from, now);
    lemma_delivery_only(
        t,
        offered.requests_tx,
        DeliveryView::Request(ServiceRequestView::Subscribe { eventgroup_id, client, transport }),
    );
}

proof fn lemma_noted_keeps_wf(s: StateView, peer: IpAddr, flags: u8, session_id: u16)
    requires
        s.wf(),
    ensures
        session_noted(s, peer, flags, session_id).wf(),
{
    let noted = session_noted(s, peer, flags, session_id);
    lemma_put_is_distinct(s.peer_sessions, peer);
}

proof fn lemma_put_is_distinct<K, V>(t: Seq<(K, V)>, k: K)
    requires
        distinct(t),
    ensures
        forall|v: V| distinct(#[trigger] put(t, k, v)),
{
    assert forall|v: V| distinct(#[trigger] put(t, k, v)) by {
        lemma_put(t, k, v);
    }
}

proof fn lemma_deliveries(s: StateView, actions: Seq<ActionView>, n: int)
    requires
        only_deliveries(actions),
        0 <= n <= actions.len(),
    ensures
        ({
            let (t, effects) = executed_all(s, actions, n);
            &&& t == s
            &&& effects.len() == n
            &&& forall|i: int|
                0 <= i < n ==> #[trigger] effects[i] == (EffectView::Deliver {
                    to: actions[i]->Deliver_to,
                    message: actions[i]->Deliver_message,
                })
        }),
    decreases n,
{
    if n > 0 {
        lemma_deliveries(s, actions, n - 1);
        assert(actions[n - 1] is Deliver);
    }
}

/// The acknowledgement of a subscription completes it: the handle of a subscription to this one
/// eventgroup that awaits it hears of the success, whatever else is awaited, and the wait is
/// over.
pub proof fn an_acknowledgement_is_heard(
    l: LoopView,
    data: Vec<u8>,
    asked: SdEntry,
    flags: u8,
    subscription_id: u64,
    to: ChannelId,
    session_id: u16,
    from: SocketAddr,
    now: u64,
    reply: ChannelId,
)
    requires
        l.wf(),
        data@ == ack_message(asked, flags).bytes(session_id),
        asked.encodable(),
        asked.entry_type is SubscribeEventgroup,
        asked.ttl > 0,
        l.state.pending_subscriptions.contains(
            (pending_key(asked), PendingSubscription { subscription_id, response: Some(to) }),
        ),
        !has_key(l.state.multi, multi_key(asked, subscription_id)),
        !shows_reboot(l.state, from.ip, flags, session_id),
    ensures
        ({
            let (after, effects) = reaction(l, LoopEvent::SdPacket { data, from }, now, reply);
            &&& effects.contains(
                EffectView::Deliver {
                    to,
                    message: DeliveryView::Subscribed(Ok(subscription_id)),
                },
            )
            &&& !is_awaited(after.state.pending_subscriptions, pending_key(asked))
            &&& after.state.subscriptions == l.state.subscriptions
        }),
{
    let s = l.state;
    let m = ack_message(asked, flags);
    let noted = session_noted(s, from.ip, flags, session_id);
    lemma_noted_keeps_wf(s, from.ip, flags, session_id);
    an_acknowledgement_completes_the_subscription(
        noted,
        Seq::empty(),
        asked,
        flags,
        subscription_id,
        to,
    );
    an_answer_ends_the_wait(noted, Seq::empty(), m.entries[0]);
    lemma_one_entry(s, m, session_id, from, now);
    let (t, actions) = after_ack(noted, Seq::empty(), m.entries[0]);
    assert forall|i: int| 0 <= i < actions.len() implies !((#[trigger] actions[i]) is SendSd) by {
        assert(actions[i] is Deliver);
    }
    lemma_nothing_to_cluster(actions);
    lemma_deliveries(t, actions, actions.len() as int);
    let told = ActionView::Deliver {
        to,
        message: DeliveryView::Subscribed(Ok(subscription_id)),
    };
    let k = choose|k: int| 0 <= k < actions.len() && actions[k] == told;
    let (_, effects) = executed_all(t, actions, actions.len() as int);
    assert(effects[k] == (EffectView::Deliver {
        to,
        message: DeliveryView::Subscribed(Ok(subscription_id)),
    }));
}

} // verus!
