//! Requests, responses, events and offers.

use recentip::config::{MethodConfig, OfferConfig, RuntimeConfig, Transport};
use recentip::error::{IoError, IoErrorKind};
use recentip::ids::{InstanceId, ReturnCode, ServiceId};
use recentip::message::{Delivery, ServiceRequest};
use recentip::net::{IpAddr, Ipv4Addr, SocketAddr};
use recentip::runtime::action::{Action, PendingServerResponse, RpcTransportSender};
use recentip::runtime::client::{
    get_endpoint_ip, handle_call, handle_fire_and_forget, handle_incoming_notification,
    handle_incoming_response,
};
use recentip::runtime::incoming::handle_method_message;
use recentip::runtime::rpc::{build_notification, build_request, build_response};
use recentip::runtime::server::{
    handle_incoming_fire_forget, handle_incoming_request, handle_notify, handle_offer_command,
    handle_register_event, handle_stop_offer, offer_addresses, request_delivered, OpenedSocket,
};
use recentip::runtime::state::{
    ClientSubscription, DiscoveredService, OfferedService, RuntimeState, ServerSubscription,
    ServiceKey, SubscriberKey, SubscriberSlot,
};
use recentip::wire::Header;

const MS: u64 = 1_000_000;

fn addr(last: u8, port: u16) -> SocketAddr {
    SocketAddr::v4(Ipv4Addr::new(10, 0, 0, last), port)
}

fn new_state() -> RuntimeState {
    RuntimeState::new(addr(1, 30490), addr(1, 49152), 77, RuntimeConfig::default())
}

fn service() -> ServiceId {
    ServiceId::new(0x1234).unwrap()
}

fn key(instance_id: u16) -> ServiceKey {
    ServiceKey { service_id: 0x1234, instance_id, major_version: 2 }
}

fn offered(requests_tx: u64) -> OfferedService {
    OfferedService {
        major_version: 2,
        minor_version: 0,
        requests_tx,
        last_offer: 0,
        udp_endpoint: Some(addr(1, 4000)),
        udp_transport: Some(RpcTransportSender::Udp(501)),
        tcp_endpoint: None,
        tcp_transport: None,
        method_config: MethodConfig::new().use_exception_for(0x0007),
        is_announcing: true,
    }
}

fn header_of(data: &[u8]) -> Header {
    Header::parse(data).unwrap()
}

fn payload(bytes: &[u8]) -> bytes::Bytes {
    bytes::Bytes::copy_from_slice(bytes)
}

fn event_receivers(actions: &[Action]) -> Vec<u64> {
    actions
        .iter()
        .filter_map(|a| match a {
            Action::Deliver { to, message: Delivery::Event(_) } => Some(*to),
            _ => None,
        })
        .collect()
}

#[test]
fn a_call_finds_its_response() {
    let mut state = new_state();
    let mut actions = vec![];
    for (response, byte) in [(11u64, 1u8), (12, 2)] {
        handle_call(
            service(),
            3,
            &payload(&[byte]),
            response,
            addr(2, 4000),
            Transport::Udp,
            &mut state,
            &mut actions,
        );
    }
    assert_eq!(state.pending_calls.len(), 2);
    let sent: Vec<Header> = actions
        .iter()
        .map(|a| match a {
            Action::SendClientMessage { data, target, transport } => {
                assert_eq!((*target, *transport), (addr(2, 4000), Transport::Udp));
                header_of(data)
            }
            _ => panic!("a call is sent"),
        })
        .collect();
    assert_eq!((sent[0].session_id, sent[1].session_id), (1, 2));
    actions.clear();
    let reply = build_response(0x1234, 3, sent[1].client_id, sent[1].session_id, 1, 0, &[9], false);
    handle_incoming_response(&header_of(&reply), payload(&reply[16..]), &mut state, &mut actions);
    match &actions[0] {
        Action::Deliver { to: 12, message: Delivery::CallResult(r) } => {
            assert!(r.is_ok());
            assert!(!r.is_err());
            assert_eq!(&r.payload[..], &[9]);
        }
        _ => panic!("the second call is answered"),
    }
    actions.clear();
    handle_incoming_response(&header_of(&reply), payload(&reply[16..]), &mut state, &mut actions);
    assert!(actions.is_empty());
    assert_eq!(state.pending_calls.len(), 1);
    let error = build_response(0x1234, 3, sent[0].client_id, sent[0].session_id, 1, 2, &[], true);
    handle_incoming_response(&header_of(&error), payload(&[]), &mut state, &mut actions);
    match &actions[0] {
        Action::Deliver { to: 11, message: Delivery::CallResult(r) } => {
            assert_eq!(r.return_code, ReturnCode::UnknownService);
            assert!(r.is_err());
        }
        _ => panic!("the first call is answered"),
    }
}

#[test]
fn a_call_without_response_uses_session_zero() {
    let state = new_state();
    let mut actions = vec![];
    handle_fire_and_forget(
        service(),
        3,
        &payload(&[5]),
        addr(2, 4000),
        Transport::Tcp,
        &state,
        &mut actions,
    );
    match &actions[0] {
        Action::SendClientMessage { data, transport: Transport::Tcp, .. } => {
            assert_eq!(header_of(data).session_id, 0);
            assert_eq!(data[14], 0x01);
            assert_eq!(data[16], 5);
        }
        _ => panic!("it is sent"),
    }
}

#[test]
fn endpoint_addresses_are_advertised_or_local() {
    let mut state = new_state();
    assert_eq!(get_endpoint_ip(&state), Some(addr(1, 0).ip));
    state.config.advertised_ip = Some(IpAddr::V4(Ipv4Addr::new(9, 9, 9, 9)));
    assert_eq!(
        get_endpoint_ip(&state),
        Some(IpAddr::V4(Ipv4Addr::new(9, 9, 9, 9)))
    );
    state.config.advertised_ip = None;
    state.local_endpoint = SocketAddr::v4(Ipv4Addr::new(0, 0, 0, 0), 30490);
    assert_eq!(get_endpoint_ip(&state), Some(addr(1, 0).ip));
    state.client_rpc_endpoint = SocketAddr::v4(Ipv4Addr::new(0, 0, 0, 0), 49152);
    assert_eq!(get_endpoint_ip(&state), None);
}

fn subscription(service: ServiceKey, events_tx: u64, dedicated: bool, slot: u64) -> ClientSubscription {
    ClientSubscription {
        service,
        subscription_id: events_tx,
        eventgroup_id: 1,
        events_tx,
        local_endpoint: addr(1, 49152),
        has_dedicated_socket: dedicated,
        tcp_conn_key: slot,
        chosen: None,
    }
}

#[test]
fn events_go_to_the_subscriptions_on_their_connection() {
    let mut state = new_state();
    state.discovered.insert(
        key(1),
        DiscoveredService {
            udp_endpoint: Some(addr(2, 4000)),
            tcp_endpoint: Some(addr(2, 4001)),
            sd_endpoint: addr(2, 30490),
            minor_version: 0,
            ttl: 3,
            ttl_expires: 10,
        },
    );
    state.subscriptions = vec![
        subscription(key(1), 1, false, 0),
        subscription(key(1), 2, true, 0),
        subscription(key(1), 3, false, 1),
        subscription(key(2), 4, false, 0),
    ];
    state.static_listeners.insert(
        SubscriberKey { service_id: 0x1234, instance_id: 9, major_version: 1, eventgroup_id: 1 },
        8,
    );
    let n = build_notification(0x1234, 0x8001, 1, 0, 1, &[1]);
    let mut actions = vec![];
    handle_incoming_notification(&header_of(&n), payload(&[1]), addr(2, 4000), &state, 0, &mut actions);
    assert_eq!(event_receivers(&actions), vec![1, 8]);
    actions.clear();
    handle_incoming_notification(&header_of(&n), payload(&[1]), addr(2, 4001), &state, 1, &mut actions);
    assert_eq!(event_receivers(&actions), vec![3, 8]);
    actions.clear();
    handle_incoming_notification(&header_of(&n), payload(&[1]), addr(3, 4000), &state, 0, &mut actions);
    assert!(actions.is_empty());
    let method = build_notification(0x1234, 0x0001, 1, 0, 1, &[1]);
    handle_incoming_notification(&header_of(&method), payload(&[1]), addr(2, 4000), &state, 0, &mut actions);
    assert!(actions.is_empty());
}

fn subscriber(state: &mut RuntimeState, group: u16, endpoint: SocketAddr, transport: Transport) {
    state.server_subscribers.insert(
        SubscriberSlot {
            group: SubscriberKey {
                service_id: 0x1234,
                instance_id: 1,
                major_version: 2,
                eventgroup_id: group,
            },
            endpoint,
        },
        ServerSubscription { transport, expires_at: None },
    );
}

#[test]
fn an_event_reaches_each_subscriber_once() {
    let mut state = new_state();
    subscriber(&mut state, 5, addr(2, 1), Transport::Udp);
    subscriber(&mut state, 5, addr(3, 1), Transport::Tcp);
    subscriber(&mut state, 6, addr(2, 1), Transport::Udp);
    subscriber(&mut state, 7, addr(4, 1), Transport::Udp);
    let mut actions = vec![];
    handle_notify(
        service(),
        InstanceId::Id(1),
        2,
        &[5, 6],
        0x8001,
        &payload(&[3]),
        &state,
        &mut actions,
    );
    let targets: Vec<(SocketAddr, Transport)> = actions
        .iter()
        .map(|a| match a {
            Action::SendServerMessage { target, transport, data, service_key } => {
                assert_eq!(*service_key, key(1));
                assert_eq!(header_of(data).method_id, 0x8001);
                assert_eq!(&data[16..], &[3]);
                (*target, *transport)
            }
            _ => panic!("events are sent"),
        })
        .collect();
    assert_eq!(
        targets,
        vec![(addr(2, 1), Transport::Udp), (addr(3, 1), Transport::Tcp)]
    );
    actions.clear();
    handle_notify(
        service(),
        InstanceId::Id(1),
        2,
        &[9],
        0x8001,
        &payload(&[3]),
        &state,
        &mut actions,
    );
    assert!(actions.is_empty());
}

fn request(state: &RuntimeState, data: &[u8], socket: Option<ServiceKey>, transport: Transport) -> Vec<Action> {
    let mut actions = vec![];
    handle_incoming_request(
        &header_of(data),
        payload(&data[16..]),
        addr(2, 6000),
        state,
        &mut actions,
        socket,
        transport,
        333,
    );
    actions
}

#[test]
fn requests_reach_the_service_of_their_socket() {
    let mut state = new_state();
    state.offered.insert(key(1), offered(500));
    state.offered.insert(key(2), offered(600));
    let r = build_request(0x1234, 0x0007, 0xAA, 0xBB, 1, &[1, 2]);
    for (socket, to, instance) in [(Some(key(2)), 600, 2), (None, 500, 1)] {
        let actions = request(&state, &r, socket, Transport::Udp);
        match &actions[0] {
            Action::DeliverRequest {
                to: handle,
                request: ServiceRequest::MethodCall { method_id: 7, payload, response: 333, .. },
                context: Some(c),
                reply: 333,
            } => {
                assert_eq!(*handle, to);
                assert_eq!(&payload[..], &[1, 2]);
                assert_eq!(c.instance_id, instance);
                assert_eq!((c.client_id, c.session_id), (0xAA, 0xBB));
                assert!(c.uses_exception);
                assert_eq!(c.rpc_transport, RpcTransportSender::Udp(501));
            }
            _ => panic!("the service gets the request"),
        }
    }
    let actions = request(&state, &r, Some(key(1)), Transport::Tcp);
    assert!(matches!(&actions[0], Action::DeliverRequest { context: None, .. }));
}

#[test]
fn requests_for_unknown_services_are_refused() {
    let mut state = new_state();
    let r = build_request(0x1234, 7, 0xAA, 0xBB, 1, &[1]);
    let actions = request(&state, &r, None, Transport::Udp);
    match &actions[0] {
        Action::SendClientMessage { data, target, .. } => {
            let h = header_of(data);
            assert_eq!((h.return_code, h.client_id, h.session_id), (0x02, 0xAA, 0xBB));
            assert_eq!(*target, addr(2, 6000));
            assert_eq!(data.len(), 16);
        }
        _ => panic!("it is refused"),
    }
    state.offered.insert(key(1), offered(500));
    let other = ServiceKey { service_id: 0x9999, instance_id: 1, major_version: 2 };
    let actions = request(&state, &r, Some(other), Transport::Udp);
    assert!(matches!(&actions[0], Action::SendClientMessage { data, .. } if data[15] == 0x02));
}

#[test]
fn requests_with_event_identifiers_are_malformed() {
    let mut state = new_state();
    state.offered.insert(key(1), offered(500));
    let r = build_request(0x1234, 0x8001, 1, 1, 1, &[]);
    let actions = request(&state, &r, Some(key(1)), Transport::Udp);
    assert!(matches!(&actions[0], Action::SendServerMessage { data, .. } if data[15] == 0x09));
    assert!(request(&state, &r, Some(key(1)), Transport::Tcp).is_empty());
}

#[test]
fn answers_are_awaited_only_for_requests_that_were_taken() {
    let context = PendingServerResponse {
        service_id: 1,
        instance_id: 1,
        method_id: 1,
        client_id: 1,
        session_id: 1,
        interface_version: 1,
        client_addr: addr(2, 1),
        uses_exception: false,
        rpc_transport: RpcTransportSender::Udp(1),
    };
    let mut actions = vec![];
    request_delivered(false, Some(context), 5, &mut actions);
    request_delivered(true, None, 5, &mut actions);
    assert!(actions.is_empty());
    request_delivered(true, Some(context), 5, &mut actions);
    assert!(matches!(actions[0], Action::TrackServerResponse { receiver: 5, .. }));
}

#[test]
fn requests_without_answer_are_delivered_or_dropped() {
    let mut state = new_state();
    let r = build_request(0x1234, 7, 1, 0, 1, &[4]);
    let mut actions = vec![];
    handle_incoming_fire_forget(&header_of(&r), payload(&[4]), addr(2, 1), &state, &mut actions, None);
    assert!(actions.is_empty());
    state.offered.insert(key(1), offered(500));
    handle_incoming_fire_forget(&header_of(&r), payload(&[4]), addr(2, 1), &state, &mut actions, None);
    assert!(matches!(
        &actions[0],
        Action::Deliver {
            to: 500,
            message: Delivery::Request(ServiceRequest::FireForget { method_id: 7, .. })
        }
    ));
}

#[test]
fn messages_are_dispatched_by_type_and_checked() {
    let mut state = new_state();
    state.offered.insert(key(1), offered(500));
    let r = build_request(0x1234, 7, 1, 1, 1, &[4, 5]);
    let dispatch = |state: &mut RuntimeState, data: &[u8]| {
        handle_method_message(
            &header_of(data),
            &data[16..],
            addr(2, 1),
            state,
            None,
            Transport::Udp,
            0,
            9,
        )
    };
    match &dispatch(&mut state, &r).unwrap()[0] {
        Action::DeliverRequest { request: ServiceRequest::MethodCall { payload, .. }, .. } => {
            assert_eq!(&payload[..], &[4, 5])
        }
        _ => panic!("a request is delivered"),
    }
    assert!(dispatch(&mut state, &r[..17]).is_none());
    let mut old = r.to_vec();
    old[12] = 2;
    assert!(dispatch(&mut state, &old).is_none());
    let mut segment = r.to_vec();
    segment[14] = 0x20;
    assert!(dispatch(&mut state, &segment).is_none());
}

fn offer(state: &mut RuntimeState, udp: Option<Result<OpenedSocket, IoError>>, now: u64) -> Vec<Action> {
    let mut actions = vec![];
    handle_offer_command(
        service(),
        InstanceId::Id(1),
        2,
        7,
        MethodConfig::new(),
        500,
        10,
        udp,
        None,
        state,
        &mut actions,
        now,
    );
    actions
}

fn opened() -> Option<Result<OpenedSocket, IoError>> {
    Some(Ok(OpenedSocket { endpoint: addr(1, 30491), sender: 501 }))
}

#[test]
fn offers_take_the_next_port_for_both_transports() {
    let mut state = new_state();
    let both = OfferConfig::new().udp().tcp();
    assert_eq!(
        offer_addresses(&state, &both),
        (Some(addr(1, 30491)), Some(addr(1, 30491)))
    );
    state.offered.insert(key(1), offered(1));
    assert_eq!(
        offer_addresses(&state, &both),
        (Some(addr(1, 30493)), Some(addr(1, 30493)))
    );
    let fixed = OfferConfig::new().udp_port(5000);
    assert_eq!(offer_addresses(&state, &fixed), (Some(addr(1, 5000)), None));
}

#[test]
fn an_offer_is_stored_and_held_back() {
    let mut state = new_state();
    state.last_periodic_cycle = Some((1000 * MS) as u128);
    let actions = offer(&mut state, opened(), 1100 * MS);
    assert!(matches!(
        &actions[0],
        Action::Deliver { to: 10, message: Delivery::Offered(Ok(500)) }
    ));
    assert_eq!(state.pending_initial_offers, vec![key(1)]);
    assert_eq!(state.pending_offers_deadline, Some((1150 * MS) as u128));
    let stored = state.offered.get(&key(1)).unwrap();
    assert_eq!(stored.udp_endpoint, Some(addr(1, 30491)));
    assert!(stored.is_announcing);
}

#[test]
fn an_offer_close_to_the_next_cycle_waits_for_it() {
    for (cycle, now, deadline) in [
        (None, 0, None),
        (Some(1000), 1800, None),
        (Some(1000), 1799, Some(1849)),
    ] {
        let mut state = new_state();
        state.last_periodic_cycle = cycle.map(|c: u64| (c * MS) as u128);
        offer(&mut state, opened(), now * MS);
        assert_eq!(state.pending_offers_deadline, deadline.map(|d: u64| (d * MS) as u128));
    }
}

#[test]
fn an_offer_needs_a_transport() {
    let mut state = new_state();
    let actions = offer(&mut state, None, 0);
    match &actions[0] {
        Action::Deliver { message: Delivery::Offered(Err(e)), .. } => {
            assert_eq!(e.text(), "Configuration error: No transport configured")
        }
        _ => panic!("no transport"),
    }
    let error = IoError { kind: IoErrorKind::AddrInUse, message: "taken".to_string() };
    let actions = offer(&mut state, Some(Err(error)), 0);
    match &actions[0] {
        Action::Deliver { message: Delivery::Offered(Err(e)), .. } => {
            assert_eq!(e.text(), "I/O error: taken")
        }
        _ => panic!("no socket"),
    }
    assert!(state.offered.is_empty());
}

#[test]
fn a_service_is_offered_once() {
    let mut state = new_state();
    offer(&mut state, opened(), 0);
    let before = state.offered.get(&key(1)).unwrap().last_offer;
    let actions = offer(&mut state, opened(), 5 * MS);
    match &actions[..] {
        [Action::Deliver { to: 10, message: Delivery::Offered(Err(e)) }] => {
            assert_eq!(e.text(), "Service/instance is already offered or bound")
        }
        _ => panic!("it is offered already"),
    }
    assert_eq!(state.offered.len(), 1);
    assert_eq!(state.offered.get(&key(1)).unwrap().last_offer, before);
    assert_eq!(state.pending_initial_offers, vec![key(1)]);
}

#[test]
fn events_are_registered_once_per_offer() {
    let mut state = new_state();
    let register = |state: &mut RuntimeState, event| {
        handle_register_event(service(), InstanceId::Id(1), 2, event, state)
    };
    assert_eq!(
        register(&mut state, 0x8001).unwrap_err().text(),
        "Configuration error: Cannot register event for service 4660/1/2 that is not being offered"
    );
    offer(&mut state, opened(), 0);
    assert!(register(&mut state, 0x8001).is_ok());
    assert!(register(&mut state, 0x8002).is_ok());
    assert_eq!(
        register(&mut state, 0x8001).unwrap_err().text(),
        "Configuration error: Event ID 0x8001 already registered for service 4660/1/2"
    );
    let mut actions = vec![];
    handle_stop_offer(service(), InstanceId::Id(1), 2, &mut state, &mut actions);
    assert!(state.offered.is_empty());
    assert!(state.registered_events.is_empty());
    match &actions[0] {
        Action::SendSd { message, target } => {
            assert!(message.entries[0].is_stop());
            assert_eq!(*target, SocketAddr::v4(Ipv4Addr::new(239, 255, 0, 1), 30490));
        }
        _ => panic!("the withdrawal is announced"),
    }
    actions.clear();
    handle_stop_offer(service(), InstanceId::Id(1), 2, &mut state, &mut actions);
    assert!(actions.is_empty());
}
