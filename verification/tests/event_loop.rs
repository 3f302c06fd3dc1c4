//! The event loop from event to effect, and the periodic tasks.

use recentip::config::{MethodConfig, OfferConfig, RuntimeConfig, Transport};
use recentip::discovery::{SdEntryType, SdMessage};
use recentip::error::Error;
use recentip::ids::{ApplicationError, InstanceId, MajorVersion, ServiceId};
use recentip::message::{Delivery, Reply, SdEvent, ServiceAvailability};
use recentip::net::{IpAddr, Ipv4Addr, SocketAddr};
use recentip::runtime::action::RpcTransportSender;
use recentip::runtime::channels::{awaits_through, is_channel_in_use};
use recentip::runtime::client_concurrent::{
    handle_subscribe_command_concurrent, resume_concurrent, ConcurrentStep, ServiceSnapshot,
    SubscribeStateUpdate,
};
use recentip::runtime::command::Command;
use recentip::runtime::event_loop::{EventLoop, LoopEvent};
use recentip::runtime::execute::Effect;
use recentip::runtime::rpc::{build_request, build_response};
use recentip::runtime::sd::build_subscribe_message;
use recentip::runtime::server::{can_place_offer, OpenedSocket};
use recentip::runtime::state::{
    DiscoveredService, RuntimeState, ServerSubscription, ServiceKey, SubscriberKey,
    SubscriberSlot,
};
use recentip::wire::Header;
use std::collections::HashSet;

const MS: u64 = 1_000_000;
const SEC: u64 = 1_000_000_000;

fn addr(last: u8, port: u16) -> SocketAddr {
    SocketAddr::v4(Ipv4Addr::new(10, 0, 0, last), port)
}

fn group() -> SocketAddr {
    SocketAddr::v4(Ipv4Addr::new(239, 255, 0, 1), 30490)
}

fn start(host: u8) -> EventLoop {
    let mut config = RuntimeConfig::default();
    config.advertised_ip = Some(IpAddr::V4(Ipv4Addr::new(10, 0, 0, host)));
    EventLoop::new(
        RuntimeState::new(addr(host, 30490), addr(host, 49152), 77, config),
        0,
    )
}

fn service() -> ServiceId {
    ServiceId::new(0x1234).unwrap()
}

fn key() -> ServiceKey {
    ServiceKey { service_id: 0x1234, instance_id: 1, major_version: 2 }
}

fn command(l: &mut EventLoop, command: Command, now: u64) -> Vec<Effect> {
    l.react(LoopEvent::Command { command }, now, 0)
}

fn make_offer(l: &mut EventLoop, now: u64) {
    let effects = command(
        l,
        Command::Offer {
            service_id: service(),
            instance_id: InstanceId::Id(1),
            major_version: 2,
            minor_version: 0,
            offer_config: OfferConfig::new().udp(),
            requests: 500,
            response: 10,
        },
        now,
    );
    for effect in effects {
        match effect {
            Effect::OpenSockets { udp: Some(at), tcp: None, offer } => {
                let done = l.react(
                    LoopEvent::SocketsOpened {
                        offer,
                        udp: Some(Ok(OpenedSocket { endpoint: at, sender: 501 })),
                        tcp: None,
                    },
                    now,
                    0,
                );
                assert!(matches!(
                    &done[0],
                    Effect::Deliver { to: 10, message: Delivery::Offered(Ok(500)) }
                ));
            }
            _ => panic!("sockets are opened first"),
        }
    }
}

fn sd_sent(effects: &[Effect]) -> Vec<(Vec<u8>, SocketAddr)> {
    effects
        .iter()
        .filter_map(|e| match e {
            Effect::SendSd { data, target } => Some((data.clone(), *target)),
            _ => None,
        })
        .collect()
}

fn entries(data: &[u8]) -> Vec<SdEntryType> {
    SdMessage::parse(&data[16..]).unwrap().entries.iter().map(|e| e.entry_type).collect()
}

#[test]
fn the_first_cycle_is_one_delay_away() {
    let l = start(1);
    assert_eq!(l.next_periodic_cycle_at, SEC as u128);
    assert_eq!(l.state.last_periodic_cycle, Some(SEC as u128));
}

#[test]
fn offers_that_start_together_share_a_message() {
    let mut l = start(1);
    make_offer(&mut l, 0);
    assert_eq!(l.state.pending_offers_deadline, Some((50 * MS) as u128));
    let effects = l.react(LoopEvent::OffersDue, 50 * MS, 0);
    let sent = sd_sent(&effects);
    assert_eq!(sent.len(), 1);
    assert_eq!(sent[0].1, group());
    assert_eq!(entries(&sent[0].0), vec![SdEntryType::OfferService]);
    assert_eq!(Header::parse(&sent[0].0).unwrap().session_id, 1);
    assert_eq!(l.state.pending_offers_deadline, None);
    assert!(l.react(LoopEvent::OffersDue, 60 * MS, 0).is_empty());
}

#[test]
fn offers_are_repeated_every_cycle() {
    let mut l = start(1);
    make_offer(&mut l, 0);
    l.react(LoopEvent::OffersDue, 50 * MS, 0);
    let sent = sd_sent(&l.react(LoopEvent::PeriodicDue, SEC, 0));
    assert_eq!(sent.len(), 1);
    assert_eq!(Header::parse(&sent[0].0).unwrap().session_id, 2);
    assert_eq!(l.next_periodic_cycle_at, (2 * SEC) as u128);
    assert!(sd_sent(&l.react(LoopEvent::PeriodicDue, SEC + 400 * MS, 0)).is_empty());
    assert_eq!(sd_sent(&l.react(LoopEvent::PeriodicDue, SEC + 500 * MS, 0)).len(), 1);
}

#[test]
fn a_cycle_sends_what_is_held_back() {
    let mut l = start(1);
    make_offer(&mut l, 900 * MS);
    assert_eq!(l.state.pending_offers_deadline, Some((950 * MS) as u128));
    let sent = sd_sent(&l.react(LoopEvent::PeriodicDue, SEC, 0));
    assert_eq!(sent.len(), 1);
    assert!(l.state.pending_initial_offers.is_empty());
}

#[test]
fn searches_are_repeated_three_times() {
    let mut l = start(1);
    let effects = command(
        &mut l,
        Command::Find {
            service_id: service(),
            instance_id: InstanceId::Any,
            major_version: MajorVersion::Any,
            notify: 42,
        },
        0,
    );
    assert_eq!(sd_sent(&effects).len(), 1);
    for cycle in 1..=3u64 {
        assert_eq!(sd_sent(&l.react(LoopEvent::PeriodicDue, cycle * SEC, 0)).len(), 1);
    }
    assert_eq!(l.state.find_requests.len(), 1);
    assert!(sd_sent(&l.react(LoopEvent::PeriodicDue, 4 * SEC, 0)).is_empty());
    assert_eq!(l.state.find_requests.len(), 0);
}

#[test]
fn what_has_outlived_its_time_is_dropped() {
    let mut l = start(1);
    l.state.sd_monitors = vec![70, 71];
    l.state.discovered.insert(
        key(),
        DiscoveredService {
            udp_endpoint: Some(addr(2, 1)),
            tcp_endpoint: None,
            sd_endpoint: addr(2, 30490),
            minor_version: 0,
            ttl: 2,
            ttl_expires: (2 * SEC) as u128,
        },
    );
    for (port, expires_at) in [(1u16, Some((2 * SEC) as u128)), (2, Some((3 * SEC) as u128)), (3, None)] {
        l.state.server_subscribers.insert(
            SubscriberSlot {
                group: SubscriberKey {
                    service_id: 0x1234,
                    instance_id: 1,
                    major_version: 2,
                    eventgroup_id: 1,
                },
                endpoint: addr(2, port),
            },
            ServerSubscription { transport: Transport::Udp, expires_at },
        );
    }
    assert!(l.react(LoopEvent::PeriodicDue, 2 * SEC - 1, 0).is_empty());
    let effects = l.react(LoopEvent::PeriodicDue, 2 * SEC, 0);
    match &effects[0] {
        Effect::TellMonitors { monitors, event: SdEvent::ServiceExpired { service_id: 0x1234, .. } } => {
            assert_eq!(monitors, &vec![70, 71])
        }
        _ => panic!("monitors hear of it"),
    }
    assert_eq!(l.state.server_subscribers.len(), 2);
    l.react(LoopEvent::MonitorsLost { lost: vec![70] }, 0, 0);
    assert_eq!(l.state.sd_monitors, vec![71]);
}

#[test]
fn a_rebooted_host_loses_its_subscriptions() {
    let mut l = start(1);
    make_offer(&mut l, 0);
    let subscribe = |session, port| {
        build_subscribe_message(0x1234, 1, 2, 5, addr(2, port), port, 0xC0, 3, Transport::Udp)
            .serialize(session)
    };
    l.react(LoopEvent::SdPacket { data: subscribe(5, 6000), from: addr(2, 30490) }, 0, 0);
    assert_eq!(l.state.server_subscribers.len(), 1);
    let effects = l.react(
        LoopEvent::SdPacket { data: SdMessage::new(0xC0).serialize(1), from: addr(2, 30490) },
        0,
        0,
    );
    assert!(matches!(&effects[0], Effect::CloseConnections { peer } if *peer == addr(2, 0).ip));
    assert_eq!(l.state.server_subscribers.len(), 0);
}

#[test]
fn a_client_and_a_server_find_each_other() {
    let mut server = start(2);
    let mut client = start(1);
    make_offer(&mut server, 0);
    let offer = sd_sent(&server.react(LoopEvent::OffersDue, 50 * MS, 0)).remove(0).0;

    command(
        &mut client,
        Command::Find {
            service_id: service(),
            instance_id: InstanceId::Any,
            major_version: MajorVersion::Any,
            notify: 42,
        },
        0,
    );
    let effects = client.react(
        LoopEvent::SdPacket { data: offer, from: addr(2, 30490) },
        200 * MS,
        0,
    );
    match &effects[0] {
        Effect::Deliver {
            to: 42,
            message: Delivery::Availability(ServiceAvailability::Available { endpoint, .. }),
        } => assert_eq!(*endpoint, addr(2, 30491)),
        _ => panic!("the search is answered"),
    }

    let effects = command(
        &mut client,
        Command::Subscribe {
            service_id: service(),
            instance_id: InstanceId::Id(1),
            major_version: 2,
            eventgroup_ids: vec![5, 6],
            events: 900,
            response: 11,
            selection: None,
        },
        200 * MS,
    );
    assert!(effects.is_empty());
    assert_eq!(client.state.unicast_sd_deadline(), Some((300 * MS) as u128));
    let (asked, to) = sd_sent(&client.react(LoopEvent::UnicastSdDue, 300 * MS, 0)).remove(0);
    assert_eq!(to, addr(2, 30490));

    let effects = server.react(
        LoopEvent::SdPacket { data: asked, from: addr(1, 30490) },
        301 * MS,
        0,
    );
    assert_eq!(effects.len(), 2);
    assert_eq!(server.state.server_subscribers.len(), 2);
    let answers = sd_sent(&server.react(LoopEvent::UnicastSdDue, 401 * MS, 0));
    assert_eq!(answers.len(), 1);

    let effects = client.react(
        LoopEvent::SdPacket { data: answers[0].0.clone(), from: addr(2, 30490) },
        402 * MS,
        0,
    );
    assert!(matches!(
        &effects[0],
        Effect::Deliver { to: 11, message: Delivery::Subscribed(Ok(1)) }
    ));

    let effects = command(
        &mut server,
        Command::Notify {
            service_id: service(),
            instance_id: InstanceId::Id(1),
            major_version: 2,
            eventgroup_ids: vec![5, 6],
            event_id: 0x8001,
            payload: bytes::Bytes::from_static(&[7]),
        },
        500 * MS,
    );
    assert_eq!(effects.len(), 1);
    let event = match &effects[0] {
        Effect::SendFromService { via: RpcTransportSender::Udp(501), data, target } => {
            assert_eq!(*target, addr(1, 49152));
            data.to_vec()
        }
        _ => panic!("the event is sent"),
    };
    let effects = client.react(
        LoopEvent::MethodMessage { data: event, from: addr(2, 30491), service_key: None },
        501 * MS,
        0,
    );
    assert_eq!(effects.len(), 2);
    assert!(matches!(
        &effects[0],
        Effect::Deliver { to: 900, message: Delivery::Event(e) } if e.payload[0] == 7
    ));
}

#[test]
fn a_call_goes_there_and_back() {
    let mut server = start(2);
    let mut client = start(1);
    make_offer(&mut server, 0);
    let effects = command(
        &mut client,
        Command::Call {
            service_id: service(),
            method_id: 3,
            payload: bytes::Bytes::from_static(&[1, 2]),
            response: 12,
            target_endpoint: addr(2, 30491),
            target_transport: Transport::Udp,
        },
        0,
    );
    let request = match &effects[0] {
        Effect::SendUdp { via: 77, data, target } => {
            assert_eq!(*target, addr(2, 30491));
            data.to_vec()
        }
        _ => panic!("the call is sent"),
    };
    let effects = server.react(
        LoopEvent::MethodMessage {
            data: request,
            from: addr(1, 49152),
            service_key: Some(key()),
        },
        1,
        333,
    );
    let context = match &effects[0] {
        Effect::DeliverRequest { to: 500, context, reply: 333, .. } => *context,
        _ => panic!("the service gets it"),
    };
    let effects = server.react(
        LoopEvent::Delivered { delivered: true, context, reply: 333 },
        1,
        0,
    );
    let context = match &effects[0] {
        Effect::AwaitAnswer { context, receiver: 333 } => *context,
        _ => panic!("the answer is awaited"),
    };
    let effects = server.react(
        LoopEvent::Answered { context, result: Ok(Reply::Payload(bytes::Bytes::from_static(&[9]))) },
        2,
        0,
    );
    let answer = match &effects[0] {
        Effect::SendFromService { via: RpcTransportSender::Udp(501), data, target } => {
            assert_eq!(*target, addr(1, 49152));
            data.to_vec()
        }
        _ => panic!("the answer is sent"),
    };
    let effects = client.react(
        LoopEvent::MethodMessage { data: answer, from: addr(2, 30491), service_key: None },
        3,
        0,
    );
    assert!(matches!(
        &effects[0],
        Effect::Deliver { to: 12, message: Delivery::CallResult(r) } if r.is_ok() && r.payload[0] == 9
    ));
    assert_eq!(client.state.pending_calls.len(), 0);

    let effects = server.react(
        LoopEvent::Answered { context, result: Err(Error::RuntimeShutdown) },
        2,
        0,
    );
    assert!(matches!(
        &effects[0],
        Effect::SendFromService { data, .. } if data[15] == 0x01 && data.len() == 16
    ));

    let refusal = ApplicationError::service_specific(0x21).unwrap();
    let effects = server.react(
        LoopEvent::Answered { context, result: Ok(Reply::Refused(refusal)) },
        2,
        0,
    );
    assert!(matches!(
        &effects[0],
        Effect::SendFromService { data, .. } if data[15] == 0x21 && data.len() == 16
    ));
}

#[test]
fn tcp_requests_are_for_the_first_service_of_their_identifier() {
    let mut l = start(1);
    make_offer(&mut l, 0);
    let data = build_request(0x1234, 3, 1, 1, 1, &[]).to_vec();
    let effects = l.react(
        LoopEvent::TcpServerMessage { data, from: addr(2, 9), conn_key: 0 },
        0,
        1,
    );
    assert!(matches!(&effects[0], Effect::DeliverRequest { context: None, .. }));
    let unknown = build_request(0x9999, 3, 1, 1, 1, &[]).to_vec();
    let effects = l.react(
        LoopEvent::TcpServerMessage { data: unknown, from: addr(2, 9), conn_key: 0 },
        0,
        1,
    );
    assert!(matches!(&effects[0], Effect::SendTcp { data, .. } if data[15] == 0x02));
}

#[test]
fn foreign_messages_do_nothing() {
    let mut l = start(1);
    let request = build_request(0x1234, 3, 1, 1, 1, &[]).to_vec();
    let sd = SdMessage::new(0xC0).serialize(1);
    let from = addr(2, 1);
    assert!(l.react(LoopEvent::SdPacket { data: request, from }, 0, 0).is_empty());
    assert!(l.react(LoopEvent::SdPacket { data: vec![1, 2, 3], from }, 0, 0).is_empty());
    for event in [
        LoopEvent::MethodMessage { data: sd.clone(), from, service_key: None },
        LoopEvent::TcpServerMessage { data: sd.clone(), from, conn_key: 0 },
        LoopEvent::TcpClientMessage { data: sd.clone(), from, conn_key: 0 },
        LoopEvent::MethodMessage { data: vec![0; 15], from, service_key: None },
    ] {
        assert!(l.react(event, 0, 0).is_empty());
    }
    let response = build_response(1, 2, 3, 4, 1, 0, &[], false).to_vec();
    assert!(l
        .react(LoopEvent::TcpClientMessage { data: response, from, conn_key: 0 }, 0, 0)
        .is_empty());
}

#[test]
fn shutting_down_withdraws_all_offers() {
    let mut l = start(1);
    let effects = command(&mut l, Command::Shutdown, 0);
    assert_eq!(effects.len(), 1);
    assert!(matches!(effects[0], Effect::Stop));
    make_offer(&mut l, 0);
    let effects = command(&mut l, Command::Shutdown, 0);
    assert_eq!(effects.len(), 2);
    let sent = sd_sent(&effects);
    assert_eq!(sent[0].1, group());
    assert!(SdMessage::parse(&sent[0].0[16..]).unwrap().entries[0].is_stop());
}

#[test]
fn pending_calls_are_answered_at_shutdown() {
    let mut l = start(1);
    make_offer(&mut l, 0);
    let mut waiting = vec![];
    for session in 1..=3u16 {
        let effects = l.react(
            LoopEvent::MethodMessage {
                data: build_request(0x1234, 3, 1, session, 1, &[]).to_vec(),
                from: addr(2, 9),
                service_key: Some(key()),
            },
            0,
            333,
        );
        match &effects[0] {
            Effect::DeliverRequest { context: Some(context), .. } => waiting.push(*context),
            _ => panic!("the service gets it"),
        }
    }
    assert!(matches!(command(&mut l, Command::Shutdown, 0)[1], Effect::Stop));
    let results = [
        Ok(Reply::Payload(bytes::Bytes::from_static(&[9]))),
        Err(Error::RuntimeShutdown),
        Ok(Reply::Refused(ApplicationError::UnknownMethod)),
    ];
    let mut sent = vec![];
    for (context, result) in waiting.into_iter().zip(results) {
        for effect in l.react(LoopEvent::Answered { context, result }, 0, 0) {
            match effect {
                Effect::SendFromService { data, .. } => {
                    sent.push((Header::parse(&data).unwrap().session_id, data[15], data[16..].to_vec()))
                }
                _ => panic!("only answers are sent"),
            }
        }
    }
    assert_eq!(sent, vec![(1, 0x00, vec![9]), (2, 0x01, vec![]), (3, 0x03, vec![])]);
}

#[test]
fn a_call_is_answered_after_its_offer_was_withdrawn() {
    let mut l = start(1);
    make_offer(&mut l, 0);
    let effects = l.react(
        LoopEvent::MethodMessage {
            data: build_request(0x1234, 3, 1, 1, 1, &[]).to_vec(),
            from: addr(2, 9),
            service_key: Some(key()),
        },
        0,
        333,
    );
    let context = match &effects[0] {
        Effect::DeliverRequest { context: Some(context), .. } => *context,
        _ => panic!("the service gets it"),
    };
    command(
        &mut l,
        Command::StopOffer {
            service_id: service(),
            instance_id: InstanceId::Id(1),
            major_version: 2,
        },
        0,
    );
    assert!(!is_channel_in_use(&l.state, 501));
    assert!(awaits_through(&context, 501));
    assert!(!awaits_through(&context, 500));
    let result = Ok(Reply::Payload(bytes::Bytes::from_static(&[9])));
    let effects = l.react(LoopEvent::Answered { context, result }, 0, 0);
    assert!(matches!(
        &effects[0],
        Effect::SendFromService { via: RpcTransportSender::Udp(501), data, target }
            if data[15] == 0x00 && data[16] == 9 && *target == addr(2, 9)
    ));
}

#[test]
fn a_second_offer_is_refused_before_its_sockets() {
    let mut l = start(1);
    make_offer(&mut l, 0);
    let effects = command(
        &mut l,
        Command::Offer {
            service_id: service(),
            instance_id: InstanceId::Id(1),
            major_version: 2,
            minor_version: 0,
            offer_config: OfferConfig::new().udp(),
            requests: 600,
            response: 20,
        },
        0,
    );
    assert_eq!(effects.len(), 1);
    assert!(matches!(
        &effects[0],
        Effect::Deliver { to: 20, message: Delivery::Offered(Err(Error::AlreadyOffered)) }
    ));
    assert_eq!(l.state.offered.get(&key()).unwrap().requests_tx, 500);
}

#[test]
fn static_subscribers_are_notified_over_udp() {
    let mut l = start(1);
    make_offer(&mut l, 0);
    let effects = command(
        &mut l,
        Command::NotifyStatic {
            service_id: service(),
            instance_id: InstanceId::Id(1),
            major_version: 2,
            eventgroup_id: 5,
            event_id: 0x8001,
            payload: bytes::Bytes::from_static(&[7]),
            targets: vec![addr(3, 1), addr(4, 1)],
        },
        0,
    );
    let mut reached = vec![];
    for effect in effects {
        match effect {
            Effect::SendFromService { via: RpcTransportSender::Udp(501), data, target } => {
                assert_eq!((data[2], data[3], data[14], data[16]), (0x80, 0x01, 0x02, 7));
                reached.push(target);
            }
            _ => panic!("the event is sent"),
        }
    }
    assert_eq!(reached, vec![addr(3, 1), addr(4, 1)]);
}

#[test]
fn commands_of_handles_are_carried_out() {
    let mut l = start(1);
    make_offer(&mut l, 0);
    assert!(command(&mut l, Command::MonitorSd { events: 70 }, 0).is_empty());
    assert_eq!(l.state.sd_monitors, vec![70]);
    let effects = command(
        &mut l,
        Command::RegisterEvent {
            service_id: service(),
            instance_id: InstanceId::Id(1),
            major_version: 2,
            event_id: 0x8001,
            response: 15,
        },
        0,
    );
    assert!(matches!(
        &effects[0],
        Effect::Deliver { to: 15, message: Delivery::Registered(Ok(())) }
    ));
    let effects = command(
        &mut l,
        Command::FireAndForget {
            service_id: service(),
            method_id: 4,
            payload: bytes::Bytes::new(),
            target_endpoint: addr(2, 1),
            target_transport: Transport::Tcp,
        },
        0,
    );
    assert!(matches!(&effects[0], Effect::SendTcp { target, .. } if *target == addr(2, 1)));
    let effects = command(
        &mut l,
        Command::StopOffer {
            service_id: service(),
            instance_id: InstanceId::Id(1),
            major_version: 2,
        },
        0,
    );
    assert_eq!(sd_sent(&effects).len(), 1);
    assert!(l.state.offered.is_empty());
    assert!(command(
        &mut l,
        Command::StopFind {
            service_id: service(),
            instance_id: InstanceId::Any,
            major_version: MajorVersion::Any
        },
        0
    )
    .is_empty());
    assert!(command(
        &mut l,
        Command::Unsubscribe {
            service_id: service(),
            instance_id: InstanceId::Id(1),
            major_version: 2,
            eventgroup_id: 5,
            subscription_id: 1
        },
        0
    )
    .is_empty());
}

fn concurrent(
    groups: Vec<u16>,
    discovered: Option<ServiceSnapshot>,
    ip: Option<IpAddr>,
    used: &HashSet<u64>,
) -> ConcurrentStep {
    handle_subscribe_command_concurrent(
        service(),
        InstanceId::Id(1),
        2,
        groups,
        900,
        11,
        discovered,
        4,
        addr(1, 49152),
        ip,
        0xC0,
        3600,
        used,
    )
}

fn snapshot(tcp: Option<SocketAddr>, how: Option<Transport>) -> Option<ServiceSnapshot> {
    Some(ServiceSnapshot {
        sd_endpoint: addr(2, 30490),
        tcp_endpoint: tcp,
        method_endpoint: how.map(|t| (addr(2, 4001), t)),
        offer_ttl: 5000,
    })
}

fn failure(step: ConcurrentStep) -> String {
    match step {
        ConcurrentStep::Finished(SubscribeStateUpdate::Failed { response: 11, error }) => {
            error.text()
        }
        _ => panic!("it fails"),
    }
}

#[test]
fn subscribing_beside_the_loop_checks_first() {
    let none = HashSet::new();
    let ip = Some(addr(1, 0).ip);
    assert_eq!(
        failure(concurrent(vec![], snapshot(None, None), ip, &none)),
        "Configuration error: At least one eventgroup must be specified"
    );
    assert_eq!(failure(concurrent(vec![5], None, ip, &none)), "Service unavailable");
    assert_eq!(
        failure(concurrent(vec![5], snapshot(None, None), ip, &none)),
        "Configuration error: Server offers no compatible transport endpoints"
    );
    assert_eq!(
        failure(concurrent(vec![5], snapshot(None, Some(Transport::Tcp)), ip, &none)),
        "Configuration error: TCP transport selected but no TCP endpoint"
    );
    assert_eq!(
        failure(concurrent(vec![5], snapshot(None, Some(Transport::Udp)), None, &none)),
        "Configuration error: No advertised IP configured for subscriptions"
    );
}

#[test]
fn subscribing_beside_the_loop_over_tcp() {
    let used: HashSet<u64> = [0, 1, 3].into_iter().collect();
    let step = concurrent(
        vec![5, 6],
        snapshot(Some(addr(2, 4001)), Some(Transport::Tcp)),
        None,
        &used,
    );
    let connect = match step {
        ConcurrentStep::Connect(connect) => connect,
        _ => panic!("a connection is needed"),
    };
    assert_eq!(connect.conn_key, 2);
    assert_eq!(connect.endpoint, addr(2, 4001));
    let update = resume_concurrent(connect, Ok(addr(1, 52000)));
    let mut l = start(1);
    assert!(l.react(LoopEvent::Subscribed { update }, 0, 0).is_empty());
    assert_eq!(l.state.subscriptions.len(), 2);
    assert_eq!(l.state.subscriptions[0].tcp_conn_key, 2);
    assert_eq!(l.state.subscription_endpoint_usage[0].port, 52000);
    let sent = sd_sent(&l.react(LoopEvent::UnicastSdDue, 0, 0));
    assert_eq!(entries(&sent[0].0).len(), 2);
    assert_eq!(SdMessage::parse(&sent[0].0[16..]).unwrap().entries[0].ttl, 5000);
    assert_eq!(l.state.multi_eventgroup_subscriptions.len(), 1);
}

#[test]
fn subscribing_beside_the_loop_over_udp() {
    let step = concurrent(
        vec![5],
        snapshot(None, Some(Transport::Udp)),
        Some(addr(1, 0).ip),
        &HashSet::new(),
    );
    let update = match step {
        ConcurrentStep::Finished(update) => update,
        _ => panic!("nothing is needed"),
    };
    let mut l = start(1);
    l.react(LoopEvent::Subscribed { update }, 0, 0);
    assert_eq!(l.state.subscriptions[0].local_endpoint, addr(1, 49152));
    assert!(l.state.subscription_endpoint_usage.is_empty());
    let failed = SubscribeStateUpdate::Failed { response: 11, error: Error::ServiceUnavailable };
    let effects = l.react(LoopEvent::Subscribed { update: failed }, 0, 0);
    assert!(matches!(
        &effects[0],
        Effect::Deliver { to: 11, message: Delivery::Subscribed(Err(Error::ServiceUnavailable)) }
    ));
}

#[test]
fn methods_can_be_set_to_use_exceptions() {
    let config = MethodConfig::new().use_exception_for(3).use_exception_for(4);
    assert!(config.uses_exception(3));
    assert!(config.uses_exception(4));
    assert!(!config.uses_exception(5));
}

#[test]
fn subscribers_can_be_asked_for() {
    let mut l = start(1);
    make_offer(&mut l, 0);
    let subscribe =
        build_subscribe_message(0x1234, 1, 2, 5, addr(2, 6000), 6000, 0xC0, 3, Transport::Udp)
            .serialize(1);
    l.react(LoopEvent::SdPacket { data: subscribe, from: addr(2, 30490) }, 0, 0);
    for (eventgroup_id, expected) in [(5, true), (6, false)] {
        let effects = command(
            &mut l,
            Command::HasSubscribers {
                service_id: service(),
                instance_id: InstanceId::Id(1),
                major_version: 2,
                eventgroup_id,
                response: 16,
            },
            0,
        );
        assert!(matches!(
            &effects[0],
            Effect::Deliver { to: 16, message: Delivery::HasSubscribers(b) } if *b == expected
        ));
    }
}

#[test]
fn channels_are_let_go_of() {
    let mut l = start(1);
    assert!(is_channel_in_use(&l.state, 77));
    assert!(!is_channel_in_use(&l.state, 42));
    command(
        &mut l,
        Command::Find {
            service_id: service(),
            instance_id: InstanceId::Any,
            major_version: MajorVersion::Any,
            notify: 42,
        },
        0,
    );
    assert!(is_channel_in_use(&l.state, 42));
    for cycle in 1..=4u64 {
        l.react(LoopEvent::PeriodicDue, cycle * SEC, 0);
    }
    assert!(!is_channel_in_use(&l.state, 42));

    make_offer(&mut l, 0);
    assert!(is_channel_in_use(&l.state, 500));
    assert!(is_channel_in_use(&l.state, 501));
    command(
        &mut l,
        Command::Call {
            service_id: service(),
            method_id: 3,
            payload: bytes::Bytes::new(),
            response: 12,
            target_endpoint: addr(2, 30491),
            target_transport: Transport::Udp,
        },
        0,
    );
    assert!(is_channel_in_use(&l.state, 12));
    command(&mut l, Command::MonitorSd { events: 70 }, 0);
    assert!(is_channel_in_use(&l.state, 70));
}

#[test]
fn an_offer_needs_ports() {
    let with_port = |port| {
        RuntimeState::new(addr(1, port), addr(1, 49152), 77, RuntimeConfig::default())
    };
    assert!(can_place_offer(&with_port(30490), &OfferConfig::new().tcp()));
    assert!(can_place_offer(&with_port(65534), &OfferConfig::new().udp()));
    assert!(can_place_offer(&with_port(65534), &OfferConfig::new().tcp()));
    assert!(!can_place_offer(&with_port(65535), &OfferConfig::new().tcp()));
    assert!(can_place_offer(&with_port(65534), &OfferConfig::new().tcp_port(7)));
    assert!(can_place_offer(&with_port(65535), &OfferConfig::new().udp_port(7)));
}
