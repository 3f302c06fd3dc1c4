//! Service discovery between hosts: offers, searches and subscriptions.

use recentip::config::{
    MethodConfig, PortSpec, RuntimeConfig, Transport, TransportPolicy, TransportSelection,
};
use recentip::discovery::{SdEntry, SdEntryType, SdMessage};
use recentip::error::Error;
use recentip::ids::{InstanceId, MajorVersion, ServiceId};
use recentip::message::{Delivery, SdEvent, ServiceAvailability, ServiceRequest};
use recentip::net::{IpAddr, Ipv4Addr, SocketAddr};
use recentip::runtime::action::{Action, RpcTransportSender};
use recentip::runtime::client::{handle_find, handle_stop_find, handle_unsubscribe};
use recentip::runtime::cluster::cluster_sd_actions;
use recentip::runtime::incoming::handle_sd_message;
use recentip::runtime::sd::{
    build_find_message, build_offer_message, build_stop_offer_message, build_subscribe_message,
    build_subscribe_message_multi, build_unsubscribe_message,
};
use recentip::runtime::sd_client::{
    handle_offer, handle_stop_offer, handle_subscribe_ack, handle_subscribe_nack,
};
use recentip::runtime::sd_server::{
    handle_find_request, handle_subscribe_request, handle_unsubscribe_request,
};
use recentip::runtime::state::{
    ClientSubscription, MultiEventgroupSubscriptionKey, OfferedService, RuntimeState, ServiceKey,
};
use recentip::runtime::subscribe::{handle_subscribe_command, resume_bound, resume_connected,
    SubscribeStep};
use recentip::wire::Header;

const MS: u64 = 1_000_000;
const SEC: u64 = 1_000_000_000;

fn addr(last: u8, port: u16) -> SocketAddr {
    SocketAddr::v4(Ipv4Addr::new(10, 0, 0, last), port)
}

fn state_with(prefer: Transport) -> RuntimeState {
    let mut config = RuntimeConfig::default();
    config.advertised_ip = Some(IpAddr::V4(Ipv4Addr::new(10, 0, 0, 1)));
    config.transport_policy = TransportPolicy::from(prefer);
    RuntimeState::new(addr(1, 30490), addr(1, 49152), 77, config)
}

fn key() -> ServiceKey {
    ServiceKey { service_id: 0x1234, instance_id: 1, major_version: 2 }
}

fn service() -> ServiceId {
    ServiceId::new(0x1234).unwrap()
}

fn offered(udp: Option<SocketAddr>, tcp: Option<SocketAddr>) -> OfferedService {
    OfferedService {
        major_version: 2,
        minor_version: 7,
        requests_tx: 500,
        last_offer: 0,
        udp_endpoint: udp,
        udp_transport: udp.map(|_| RpcTransportSender::Udp(501)),
        tcp_endpoint: tcp,
        tcp_transport: tcp.map(|_| RpcTransportSender::Tcp(502)),
        method_config: MethodConfig::new(),
        is_announcing: true,
    }
}

fn offer(udp: Option<SocketAddr>, tcp: Option<SocketAddr>, ttl: u32) -> SdMessage {
    build_offer_message(key(), &offered(udp, tcp), 0xC0, ttl, None)
}

fn learn(state: &mut RuntimeState, udp: Option<SocketAddr>, tcp: Option<SocketAddr>) {
    let m = offer(udp, tcp, 3);
    let mut actions = vec![];
    handle_offer(&m.entries[0], &m, addr(2, 30490), state, &mut actions, 0);
}

fn queued(state: &mut RuntimeState) -> Vec<(SdMessage, SocketAddr)> {
    let mut r = vec![];
    for a in state.flush_pending_unicast_sd() {
        if let Action::SendSd { message, target } = a {
            r.push((message, target));
        } else {
            panic!("only discovery messages are held back");
        }
    }
    r
}

fn answer(entry_type: SdEntryType, eventgroup_id: u16, ttl: u32) -> SdEntry {
    let mut e = SdEntry::subscribe_eventgroup_ack(0x1234, 1, 2, eventgroup_id, ttl, 0);
    e.entry_type = entry_type;
    e
}

fn subscribe(state: &mut RuntimeState, groups: Vec<u16>, response: u64) -> (SubscribeStep, Vec<Action>) {
    let mut actions = vec![];
    let step = handle_subscribe_command(
        service(),
        InstanceId::Id(1),
        2,
        groups,
        900,
        response,
        None,
        state,
        &mut actions,
        0,
    );
    (step, actions)
}

fn subscribe_with(
    state: &mut RuntimeState,
    transport: Transport,
    remote: SocketAddr,
    local_port: PortSpec,
) -> (SubscribeStep, Vec<Action>) {
    let mut actions = vec![];
    let selection = TransportSelection { remote_endpoint: remote, transport, local_port };
    let step = handle_subscribe_command(
        service(),
        InstanceId::Id(1),
        2,
        vec![5],
        900,
        10,
        Some(selection),
        state,
        &mut actions,
        0,
    );
    (step, actions)
}

fn subscribed_outcome(actions: &[Action]) -> Vec<(u64, Option<u64>)> {
    actions
        .iter()
        .filter_map(|a| match a {
            Action::Deliver { to, message: Delivery::Subscribed(r) } => {
                Some((*to, r.as_ref().ok().copied()))
            }
            _ => None,
        })
        .collect()
}

#[test]
fn an_offer_names_its_endpoints() {
    let m = offer(Some(addr(2, 4000)), Some(addr(2, 4001)), 3600);
    assert_eq!(m.get_udp_endpoint(&m.entries[0]), Some(addr(2, 4000)));
    assert_eq!(m.get_tcp_endpoint(&m.entries[0]), Some(addr(2, 4001)));
    assert_eq!(m.entries[0].minor_version, 7);
    let advertised = build_offer_message(
        key(),
        &offered(Some(addr(2, 4000)), None),
        0xC0,
        3,
        Some(IpAddr::V4(Ipv4Addr::new(9, 9, 9, 9))),
    );
    assert_eq!(
        advertised.get_udp_endpoint(&advertised.entries[0]),
        Some(SocketAddr::v4(Ipv4Addr::new(9, 9, 9, 9), 4000))
    );
    let stop = build_stop_offer_message(key(), &offered(Some(addr(2, 4000)), None), 0xC0);
    assert!(stop.entries[0].is_stop());
    assert!(stop.options.is_empty());
}

#[test]
fn a_search_asks_for_any_minor_version() {
    let m = build_find_message(0x1234, 0xFFFF, 0xFF, 0x80, 3);
    assert_eq!(m.entries[0].minor_version, 0xFFFF_FFFF);
    assert_eq!(m.entries[0].entry_type, SdEntryType::FindService);
}

#[test]
fn a_new_offer_is_reported_once() {
    let mut state = state_with(Transport::Udp);
    let m = offer(Some(addr(2, 4000)), Some(addr(2, 4001)), 3);
    let mut actions = vec![];
    handle_offer(&m.entries[0], &m, addr(2, 30490), &mut state, &mut actions, 5 * SEC);
    assert_eq!(actions.len(), 2);
    assert!(matches!(
        actions[0],
        Action::NotifyFound {
            availability: ServiceAvailability::Available { transport: Transport::Udp, .. },
            ..
        }
    ));
    assert!(matches!(
        actions[1],
        Action::EmitSdEvent { event: SdEvent::ServiceAvailable { ttl: 3, .. } }
    ));
    let known = state.discovered.get(&key()).unwrap();
    assert_eq!(known.ttl_expires, (8 * SEC) as u128);
    assert!(known.is_alive(8 * SEC - 1));
    assert!(!known.is_alive(8 * SEC));
    actions.clear();
    handle_offer(&m.entries[0], &m, addr(2, 30490), &mut state, &mut actions, 6 * SEC);
    assert!(actions.is_empty());
    assert_eq!(state.discovered.get(&key()).unwrap().ttl_expires, (9 * SEC) as u128);
}

#[test]
fn an_offer_without_host_means_its_sender() {
    let mut state = state_with(Transport::Udp);
    learn(&mut state, Some(SocketAddr::v4(Ipv4Addr::new(0, 0, 0, 0), 4000)), None);
    assert_eq!(
        state.discovered.get(&key()).unwrap().udp_endpoint,
        Some(addr(2, 4000))
    );
}

#[test]
fn an_offer_without_endpoint_is_ignored() {
    let mut state = state_with(Transport::Udp);
    learn(&mut state, None, None);
    assert!(state.discovered.get(&key()).is_none());
}

#[test]
fn the_preferred_transport_is_used_where_both_are_offered() {
    for (prefer, port) in [(Transport::Udp, 4000), (Transport::Tcp, 4001)] {
        let mut state = state_with(prefer);
        learn(&mut state, Some(addr(2, 4000)), Some(addr(2, 4001)));
        let d = state.discovered.get(&key()).unwrap();
        assert_eq!(
            d.method_endpoint(prefer == Transport::Tcp),
            Some((addr(2, port), prefer))
        );
    }
}

#[test]
fn a_withdrawal_drops_the_service_and_its_subscriptions() {
    let mut state = state_with(Transport::Udp);
    learn(&mut state, Some(addr(2, 4000)), None);
    subscribe(&mut state, vec![1], 10);
    assert_eq!(state.subscriptions.len(), 1);
    let stop = build_stop_offer_message(key(), &offered(None, None), 0xC0);
    let mut actions = vec![];
    handle_stop_offer(&stop.entries[0], &mut state, &mut actions);
    assert!(state.subscriptions.is_empty());
    assert!(state.discovered.is_empty());
    assert!(matches!(
        actions[0],
        Action::EmitSdEvent { event: SdEvent::ServiceUnavailable { service_id: 0x1234, .. } }
    ));
    actions.clear();
    handle_stop_offer(&stop.entries[0], &mut state, &mut actions);
    assert!(actions.is_empty());
}

#[test]
fn a_search_is_answered_by_a_known_service_or_sent() {
    let mut state = state_with(Transport::Udp);
    let mut actions = vec![];
    handle_find(
        service(),
        InstanceId::Any,
        MajorVersion::Any,
        42,
        &mut state,
        &mut actions,
        0,
    );
    assert!(matches!(&actions[0], Action::SendSd { message, .. } if message.flags == 0x80));
    assert_eq!(state.find_requests.len(), 1);
    handle_stop_find(service(), InstanceId::Id(1), MajorVersion::Any, &mut state);
    assert_eq!(state.find_requests.len(), 1);
    handle_stop_find(service(), InstanceId::Any, MajorVersion::Any, &mut state);
    assert_eq!(state.find_requests.len(), 0);

    learn(&mut state, Some(addr(2, 4000)), None);
    actions.clear();
    handle_find(
        service(),
        InstanceId::Any,
        MajorVersion::Any,
        42,
        &mut state,
        &mut actions,
        0,
    );
    match &actions[0] {
        Action::Deliver {
            to: 42,
            message:
                Delivery::Availability(ServiceAvailability::Available {
                    endpoint,
                    transport,
                    instance_id,
                    major_version,
                }),
        } => {
            assert_eq!(*endpoint, addr(2, 4000));
            assert_eq!(*transport, Transport::Udp);
            assert_eq!((*instance_id, *major_version), (1, 2));
        }
        _ => panic!("a known service answers at once"),
    }
    assert_eq!(state.find_requests.len(), 0);
}

#[test]
fn a_server_answers_searches_with_offers() {
    let mut state = state_with(Transport::Udp);
    state.offered.insert(key(), offered(Some(addr(1, 4000)), None));
    let m = build_find_message(0x1234, 0xFFFF, 0xFF, 0x80, 3);
    handle_find_request(&m.entries[0], addr(2, 30490), &mut state, 0);
    let sent = queued(&mut state);
    assert_eq!(sent.len(), 1);
    assert_eq!(sent[0].1, addr(2, 30490));
    assert_eq!(sent[0].0.entries[0].entry_type, SdEntryType::OfferService);
    assert_eq!(sent[0].0.flags, 0xC0);
    let other = build_find_message(0x1234, 9, 0xFF, 0x80, 3);
    handle_find_request(&other.entries[0], addr(2, 30490), &mut state, 0);
    assert!(queued(&mut state).is_empty());
}

#[test]
fn a_subscription_needs_an_offered_service() {
    let mut state = state_with(Transport::Udp);
    let mut actions = vec![];
    let m = build_subscribe_message(0x1234, 1, 2, 5, addr(2, 6000), 6000, 0xC0, 3, Transport::Udp);
    handle_subscribe_request(&m.entries[0], &m, addr(2, 30490), &mut state, &mut actions, 0);
    let sent = queued(&mut state);
    assert_eq!(sent[0].0.entries[0].entry_type, SdEntryType::SubscribeEventgroupAck);
    assert!(sent[0].0.entries[0].is_stop());
    assert!(state.server_subscribers.is_empty());
    assert!(actions.is_empty());
}

#[test]
fn a_subscription_is_stored_renewed_and_withdrawn() {
    let mut state = state_with(Transport::Udp);
    state.offered.insert(key(), offered(Some(addr(1, 4000)), None));
    let mut actions = vec![];
    let m = build_subscribe_message(0x1234, 1, 2, 5, addr(2, 6000), 6000, 0xC0, 3, Transport::Udp);
    handle_subscribe_request(&m.entries[0], &m, addr(2, 30490), &mut state, &mut actions, 0);
    assert_eq!(state.server_subscribers.len(), 1);
    assert!(matches!(
        &actions[0],
        Action::Deliver {
            to: 500,
            message: Delivery::Request(ServiceRequest::Subscribe { eventgroup_id: 5, .. })
        }
    ));
    let sent = queued(&mut state);
    assert!(!sent[0].0.entries[0].is_stop());
    assert_eq!(sent[0].0.entries[0].ttl, 3);
    assert_eq!(
        state.server_subscribers.value_at(0).expires_at,
        Some((3 * SEC) as u128)
    );
    actions.clear();
    handle_subscribe_request(&m.entries[0], &m, addr(2, 30490), &mut state, &mut actions, SEC);
    assert!(actions.is_empty());
    assert_eq!(state.server_subscribers.len(), 1);
    assert_eq!(
        state.server_subscribers.value_at(0).expires_at,
        Some((4 * SEC) as u128)
    );
    let stop = build_unsubscribe_message(0x1234, 1, 2, 5, addr(2, 6000), 6000, 0xC0, Transport::Udp);
    handle_unsubscribe_request(&stop.entries[0], &stop, &mut state, &mut actions);
    assert!(state.server_subscribers.is_empty());
}

#[test]
fn the_largest_lifetime_never_ends() {
    let mut state = state_with(Transport::Udp);
    state.offered.insert(key(), offered(Some(addr(1, 4000)), None));
    let mut actions = vec![];
    let m = build_subscribe_message(
        0x1234, 1, 2, 5, addr(2, 6000), 6000, 0xC0, 0xFF_FFFF, Transport::Udp,
    );
    handle_subscribe_request(&m.entries[0], &m, addr(2, 30490), &mut state, &mut actions, 0);
    assert_eq!(state.server_subscribers.value_at(0).expires_at, None);
}

#[test]
fn a_subscription_without_host_is_refused() {
    let mut state = state_with(Transport::Udp);
    state.offered.insert(key(), offered(Some(addr(1, 4000)), None));
    let nowhere = SocketAddr::v4(Ipv4Addr::new(0, 0, 0, 0), 6000);
    let mut actions = vec![];
    let m = build_subscribe_message(0x1234, 1, 2, 5, nowhere, 6000, 0xC0, 3, Transport::Udp);
    handle_subscribe_request(&m.entries[0], &m, addr(2, 30490), &mut state, &mut actions, 0);
    assert!(queued(&mut state)[0].0.entries[0].is_stop());
}

#[test]
fn several_eventgroups_share_one_message_and_endpoint() {
    let m = build_subscribe_message_multi(
        0x1234, 1, 2, &[5, 6, 7], addr(1, 49152), 49152, 0xC0, 3, Transport::Udp,
    );
    assert_eq!(m.entries.len(), 3);
    assert_eq!(m.options.len(), 1);
    for e in &m.entries {
        assert_eq!(m.get_udp_endpoint(e), Some(addr(1, 49152)));
    }
}

#[test]
fn subscribing_needs_eventgroups_a_service_and_an_address() {
    let mut state = state_with(Transport::Udp);
    let (step, actions) = subscribe(&mut state, vec![], 10);
    assert!(matches!(step, SubscribeStep::Done));
    match &actions[0] {
        Action::Deliver { to: 10, message: Delivery::Subscribed(Err(e)) } => {
            assert_eq!(e.text(), "Configuration error: At least one eventgroup must be specified")
        }
        _ => panic!("no eventgroups"),
    }
    let (_, actions) = subscribe(&mut state, vec![1], 10);
    assert!(matches!(
        &actions[0],
        Action::Deliver { message: Delivery::Subscribed(Err(Error::ServiceUnavailable)), .. }
    ));
    learn(&mut state, Some(addr(2, 4000)), None);
    state.config.advertised_ip = None;
    state.local_endpoint = SocketAddr::v4(Ipv4Addr::new(0, 0, 0, 0), 30490);
    state.client_rpc_endpoint = SocketAddr::v4(Ipv4Addr::new(0, 0, 0, 0), 49152);
    let (_, actions) = subscribe(&mut state, vec![1], 10);
    match &actions[0] {
        Action::Deliver { message: Delivery::Subscribed(Err(e)), .. } => assert_eq!(
            e.text(),
            "Configuration error: No advertised IP configured for subscriptions"
        ),
        _ => panic!("no address"),
    }
    assert!(state.subscriptions.is_empty());
    assert!(state.pending_subscriptions.is_empty());
}

#[test]
fn the_first_udp_subscription_uses_the_request_port() {
    let mut state = state_with(Transport::Udp);
    learn(&mut state, Some(addr(2, 4000)), None);
    let (step, actions) = subscribe(&mut state, vec![5], 10);
    assert!(matches!(step, SubscribeStep::Done));
    assert!(actions.is_empty());
    assert_eq!(
        state.subscriptions,
        vec![ClientSubscription {
            service: key(),
            subscription_id: 1,
            eventgroup_id: 5,
            events_tx: 900,
            local_endpoint: addr(1, 49152),
            has_dedicated_socket: false,
            tcp_conn_key: 0,
            chosen: None,
        }]
    );
    let sent = queued(&mut state);
    assert_eq!(sent[0].1, addr(2, 30490));
    assert_eq!(sent[0].0.get_udp_endpoint(&sent[0].0.entries[0]), Some(addr(1, 49152)));
    assert_eq!(sent[0].0.entries[0].ttl, 3600);
    let mut actions = vec![];
    handle_subscribe_ack(&answer(SdEntryType::SubscribeEventgroupAck, 5, 3), &mut state, &mut actions);
    assert_eq!(subscribed_outcome(&actions), vec![(10, Some(1))]);
    assert!(state.pending_subscriptions.is_empty());
}

#[test]
fn a_further_udp_subscription_gets_a_socket_of_its_own() {
    let mut state = state_with(Transport::Udp);
    learn(&mut state, Some(addr(2, 4000)), None);
    subscribe(&mut state, vec![5], 10);
    let (step, _) = subscribe(&mut state, vec![6], 11);
    let (ip, request) = match step {
        SubscribeStep::BindUdp { ip, local_port: PortSpec::Any, request } => (ip, request),
        _ => panic!("a socket is needed"),
    };
    assert_eq!(ip, addr(1, 0).ip);
    let mut actions = vec![];
    resume_bound(request, ip, Ok(addr(9, 50001)), &mut state, &mut actions, 0);
    assert!(actions.is_empty());
    let sub = state.subscriptions[1];
    assert!(sub.has_dedicated_socket);
    assert_eq!(sub.local_endpoint, addr(1, 50001));
    assert_eq!(sub.subscription_id, 2);
}

#[test]
fn a_port_of_another_service_is_shared() {
    let mut state = state_with(Transport::Udp);
    learn(&mut state, Some(addr(2, 4000)), None);
    subscribe(&mut state, vec![5], 10);
    state.register_subscription_endpoint(50007, 0x4321, 1);
    let (step, _) = subscribe(&mut state, vec![6], 11);
    assert!(matches!(step, SubscribeStep::Done));
    assert_eq!(state.subscriptions[1].local_endpoint, addr(1, 50007));
    assert!(!state.subscriptions[1].has_dedicated_socket);
}

#[test]
fn tcp_subscriptions_take_the_smallest_free_slot() {
    let mut state = state_with(Transport::Tcp);
    learn(&mut state, None, Some(addr(2, 4001)));
    let mut requests = vec![];
    for (i, group) in [5u16, 6, 7].iter().enumerate() {
        let (step, _) = subscribe(&mut state, vec![*group], 10);
        match step {
            SubscribeStep::ConnectTcp { endpoint, conn_key, local_port: PortSpec::Any, request } => {
                assert_eq!(endpoint, addr(2, 4001));
                assert_eq!(conn_key, i as u64);
                let mut actions = vec![];
                resume_connected(request, conn_key, Ok(addr(1, 52000 + i as u16)), &mut state, &mut actions, 0);
                requests.push(conn_key);
            }
            _ => panic!("a connection is needed"),
        }
    }
    handle_unsubscribe(service(), InstanceId::Id(1), 2, 6, 2, &mut state, 0);
    let (step, _) = subscribe(&mut state, vec![8], 10);
    assert!(matches!(step, SubscribeStep::ConnectTcp { conn_key: 1, .. }));
}

#[test]
fn a_failed_connection_fails_the_subscription() {
    let mut state = state_with(Transport::Tcp);
    learn(&mut state, None, Some(addr(2, 4001)));
    let (step, _) = subscribe(&mut state, vec![5], 10);
    if let SubscribeStep::ConnectTcp { conn_key, request, .. } = step {
        let mut actions = vec![];
        let error = recentip::error::IoError {
            kind: recentip::error::IoErrorKind::Other,
            message: "refused".to_string(),
        };
        resume_connected(request, conn_key, Err(error), &mut state, &mut actions, 0);
        match &actions[0] {
            Action::Deliver { to: 10, message: Delivery::Subscribed(Err(e)) } => {
                assert_eq!(e.text(), "I/O error: refused")
            }
            _ => panic!("the handle hears of it"),
        }
        assert!(state.subscriptions.is_empty());
    } else {
        panic!("a connection is needed");
    }
}

#[test]
fn several_eventgroups_succeed_together() {
    let mut state = state_with(Transport::Udp);
    learn(&mut state, Some(addr(2, 4000)), None);
    subscribe(&mut state, vec![5, 6], 10);
    assert_eq!(state.multi_eventgroup_subscriptions.len(), 1);
    let mut actions = vec![];
    handle_subscribe_ack(&answer(SdEntryType::SubscribeEventgroupAck, 6, 3), &mut state, &mut actions);
    assert!(actions.is_empty());
    handle_subscribe_ack(&answer(SdEntryType::SubscribeEventgroupAck, 5, 3), &mut state, &mut actions);
    assert_eq!(subscribed_outcome(&actions), vec![(10, Some(1))]);
    assert_eq!(state.multi_eventgroup_subscriptions.len(), 0);
    assert_eq!(state.subscriptions.len(), 2);
}

#[test]
fn several_eventgroups_fail_together() {
    let mut state = state_with(Transport::Udp);
    learn(&mut state, Some(addr(2, 4000)), None);
    subscribe(&mut state, vec![5, 6], 10);
    let mut actions = vec![];
    handle_subscribe_ack(&answer(SdEntryType::SubscribeEventgroupAck, 6, 3), &mut state, &mut actions);
    handle_subscribe_nack(&answer(SdEntryType::SubscribeEventgroupAck, 5, 0), &mut state, &mut actions);
    assert_eq!(subscribed_outcome(&actions), vec![(10, None)]);
    assert!(matches!(
        &actions[0],
        Action::Deliver { message: Delivery::Subscribed(Err(Error::SubscriptionRejected)), .. }
    ));
    assert!(state.subscriptions.is_empty());
    assert!(state.pending_subscriptions.is_empty());
    let tracker = MultiEventgroupSubscriptionKey {
        service_id: 0x1234,
        instance_id: 1,
        major_version: 2,
        subscription_id: 1,
    };
    assert!(!state.multi_eventgroup_subscriptions.contains(&tracker));
}

#[test]
fn waiting_subscriptions_share_one_request() {
    let mut state = state_with(Transport::Udp);
    learn(&mut state, Some(addr(2, 4000)), None);
    subscribe(&mut state, vec![5], 10);
    state.register_subscription_endpoint(50007, 0x4321, 1);
    subscribe(&mut state, vec![5, 6], 11);
    let sent = queued(&mut state);
    assert_eq!(sent.len(), 1);
    let groups: Vec<u16> = sent[0].0.entries.iter().map(|e| e.eventgroup_id).collect();
    assert_eq!(groups, vec![5, 6]);
    let mut actions = vec![];
    handle_subscribe_ack(&answer(SdEntryType::SubscribeEventgroupAck, 5, 3), &mut state, &mut actions);
    assert_eq!(subscribed_outcome(&actions), vec![(10, Some(1))]);
    actions.clear();
    handle_subscribe_ack(&answer(SdEntryType::SubscribeEventgroupAck, 6, 3), &mut state, &mut actions);
    assert_eq!(subscribed_outcome(&actions), vec![(11, Some(2))]);
    handle_subscribe_ack(&answer(SdEntryType::SubscribeEventgroupAck, 6, 3), &mut state, &mut actions);
    assert_eq!(subscribed_outcome(&actions).len(), 1);
}

#[test]
fn a_further_subscription_to_several_eventgroups_succeeds_as_a_whole() {
    let mut state = state_with(Transport::Udp);
    learn(&mut state, Some(addr(2, 4000)), None);
    subscribe(&mut state, vec![4], 10);
    let (step, _) = subscribe(&mut state, vec![5, 6, 5], 11);
    let mut actions = vec![];
    if let SubscribeStep::BindUdp { ip, request, .. } = step {
        resume_bound(request, ip, Ok(addr(1, 50001)), &mut state, &mut actions, 0);
    } else {
        panic!("a socket is needed");
    }
    handle_subscribe_ack(&answer(SdEntryType::SubscribeEventgroupAck, 5, 3), &mut state, &mut actions);
    assert!(actions.is_empty());
    handle_subscribe_ack(&answer(SdEntryType::SubscribeEventgroupAck, 6, 3), &mut state, &mut actions);
    assert_eq!(subscribed_outcome(&actions), vec![(11, Some(2))]);
}

#[test]
fn a_subscription_lasts_at_least_as_long_as_the_offer() {
    let mut state = state_with(Transport::Udp);
    for (configured, offered, asked) in [(100, 7200, 7200), (9000, 7200, 9000)] {
        state.config.subscribe_ttl = configured;
        let m = offer(Some(addr(2, 4000)), None, offered);
        let mut actions = vec![];
        handle_offer(&m.entries[0], &m, addr(2, 30490), &mut state, &mut actions, 0);
        if state.subscriptions.is_empty() {
            subscribe(&mut state, vec![5], 10);
        }
        let sent = queued(&mut state);
        assert_eq!(sent.len(), 1);
        assert_eq!(sent[0].0.entries[0].ttl, asked);
    }
    state.config.subscribe_ttl = 0xFF_FFFF;
    learn(&mut state, Some(addr(2, 4000)), None);
    assert!(queued(&mut state).is_empty());
}

#[test]
fn an_offer_with_the_largest_lifetime_never_ends() {
    let mut state = state_with(Transport::Udp);
    let m = offer(Some(addr(2, 4000)), None, 0xFF_FFFF);
    let mut actions = vec![];
    handle_offer(&m.entries[0], &m, addr(2, 30490), &mut state, &mut actions, 0);
    let known = state.discovered.get(&key()).unwrap();
    assert_eq!(known.ttl_expires, u128::MAX);
    assert!(known.is_alive(u64::MAX));
}

#[test]
fn a_subscription_uses_the_transport_and_port_that_it_asks_for() {
    let mut state = state_with(Transport::Udp);
    learn(&mut state, Some(addr(2, 4000)), Some(addr(2, 4001)));
    let (step, actions) =
        subscribe_with(&mut state, Transport::Tcp, addr(2, 4001), PortSpec::Fixed(7000));
    assert!(actions.is_empty());
    match step {
        SubscribeStep::ConnectTcp { endpoint, conn_key: 0, local_port, request } => {
            assert_eq!((endpoint, local_port), (addr(2, 4001), PortSpec::Fixed(7000)));
            let mut actions = vec![];
            resume_connected(request, 0, Ok(addr(1, 7000)), &mut state, &mut actions, 0);
        }
        _ => panic!("a connection is needed"),
    }
    let sent = queued(&mut state);
    assert_eq!(sent[0].0.get_tcp_endpoint(&sent[0].0.entries[0]), Some(addr(1, 7000)));
    learn(&mut state, Some(addr(2, 4000)), Some(addr(2, 4001)));
    let renewed = queued(&mut state);
    assert_eq!(renewed[0].0.get_tcp_endpoint(&renewed[0].0.entries[0]), Some(addr(1, 7000)));

    let (step, _) =
        subscribe_with(&mut state, Transport::Udp, addr(2, 4000), PortSpec::Fixed(7001));
    assert!(matches!(
        step,
        SubscribeStep::BindUdp { local_port: PortSpec::Fixed(7001), .. }
    ));
}

#[test]
fn the_last_subscriber_withdraws() {
    let mut state = state_with(Transport::Udp);
    learn(&mut state, Some(addr(2, 4000)), None);
    subscribe(&mut state, vec![5], 10);
    state.register_subscription_endpoint(50007, 0x4321, 1);
    subscribe(&mut state, vec![5], 11);
    queued(&mut state);
    handle_unsubscribe(service(), InstanceId::Id(1), 2, 5, 1, &mut state, 0);
    assert!(queued(&mut state).is_empty());
    assert_eq!(state.subscriptions.len(), 1);
    handle_unsubscribe(service(), InstanceId::Id(1), 2, 5, 2, &mut state, 0);
    let sent = queued(&mut state);
    assert!(sent[0].0.entries[0].is_stop());
    assert_eq!(sent[0].0.get_udp_endpoint(&sent[0].0.entries[0]), Some(addr(1, 50007)));
    assert!(state.subscriptions.is_empty());
    assert_eq!(state.subscription_endpoint_usage.len(), 1);
}

#[test]
fn messages_to_one_target_are_merged_with_their_options() {
    let a = offer(Some(addr(2, 1)), None, 3);
    let b = offer(Some(addr(3, 2)), Some(addr(3, 3)), 3);
    let c = offer(Some(addr(4, 4)), None, 3);
    let merged = cluster_sd_actions(vec![
        Action::SendSd { message: a, target: addr(9, 1) },
        Action::SendSd { message: c, target: addr(8, 1) },
        Action::ResetPeerTcpConnections { peer: addr(9, 1).ip },
        Action::SendSd { message: b, target: addr(9, 1) },
    ]);
    assert_eq!(merged.len(), 3);
    assert!(matches!(merged[0], Action::ResetPeerTcpConnections { .. }));
    for action in &merged[1..] {
        if let Action::SendSd { message, target } = action {
            if *target == addr(9, 1) {
                assert_eq!(message.entries.len(), 2);
                assert_eq!(message.options.len(), 3);
                assert_eq!(message.get_udp_endpoint(&message.entries[0]), Some(addr(2, 1)));
                assert_eq!(message.get_udp_endpoint(&message.entries[1]), Some(addr(3, 2)));
                assert_eq!(message.get_tcp_endpoint(&message.entries[1]), Some(addr(3, 3)));
            } else {
                assert_eq!(message.entries.len(), 1);
            }
        } else {
            panic!("the others come first");
        }
    }
}

#[test]
fn held_back_messages_wait_a_tenth_of_a_second() {
    let mut state = state_with(Transport::Udp);
    assert_eq!(state.unicast_sd_deadline(), None);
    state.queue_unicast_sd(SdMessage::new(0xC0), addr(2, 30490), 5 * MS);
    assert_eq!(state.unicast_sd_deadline(), Some((105 * MS) as u128));
    state.queue_unicast_sd(SdMessage::new(0xC0), addr(2, 30490), 50 * MS);
    assert_eq!(state.unicast_sd_deadline(), Some((105 * MS) as u128));
    assert_eq!(state.flush_pending_unicast_sd().len(), 1);
    assert_eq!(state.unicast_sd_deadline(), None);
}

#[test]
fn a_reboot_is_noticed_per_channel() {
    let mut state = state_with(Transport::Udp);
    let m = SdMessage::new(0xC0).serialize(7);
    let header = Header::parse(&m).unwrap();
    assert!(handle_sd_message(&header, &m[16..], addr(2, 30490), &mut state, 0).is_none());
    let multicast = SdMessage::new(0x80).serialize(1);
    let h = Header::parse(&multicast).unwrap();
    assert!(handle_sd_message(&h, &multicast[16..], addr(2, 30490), &mut state, 0).is_none());
    let again = SdMessage::new(0xC0).serialize(3);
    let h = Header::parse(&again).unwrap();
    let actions = handle_sd_message(&h, &again[16..], addr(2, 30490), &mut state, 0).unwrap();
    assert!(matches!(actions[0], Action::ResetPeerTcpConnections { .. }));
    assert!(matches!(actions[1], Action::ExpirePeerSubscriptions { .. }));
    assert!(handle_sd_message(&h, &again[16..20], addr(2, 30490), &mut state, 0).is_none());
}
