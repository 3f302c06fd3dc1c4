//! The handles of an application, and the settings of a runtime.

use recentip::config::{
    MethodConfig, MulticastAddress, OfferedEndpoints, PortSpec, RuntimeConfig, Transport,
    TransportPolicy, TransportPreference, UnicastAddress,
};
use recentip::error::{Error, IoError, IoErrorKind};
use recentip::handles::event::EventBuilder;
use recentip::handles::find::FindBuilder;
use recentip::handles::instance::{AnnouncementRequest, ServiceInstance};
use recentip::handles::offer::OfferBuilder;
use recentip::handles::offering::ServiceOffering;
use recentip::handles::proxy::OfferedService;
use recentip::handles::responder::{receive_service_event, Responder, ServiceEvent};
use recentip::handles::subscription::{AttemptOutcome, SubscribeAttempts};
use recentip::ids::{
    ApplicationError, EventId, EventgroupId, InstanceId, MajorVersion, MethodId, ServiceId,
};
use recentip::message::{Reply, ServiceAvailability, ServiceRequest};
use recentip::net::{IpAddr, Ipv4Addr, SocketAddr};
use recentip::runtime::command::Command;
use recentip::runtime::state::DiscoveredService;

fn addr(last: u8, port: u16) -> SocketAddr {
    SocketAddr::v4(Ipv4Addr::new(10, 0, 0, last), port)
}

fn service() -> ServiceId {
    ServiceId::new(0x1234).unwrap()
}

fn eg(id: u16) -> EventgroupId {
    EventgroupId::new(id).unwrap()
}

fn both() -> OfferedEndpoints {
    OfferedEndpoints::Both { udp: addr(2, 1), tcp: addr(2, 2) }
}

fn proxy(endpoints: OfferedEndpoints, preferred: Transport) -> OfferedService {
    OfferedService::new(preferred, service(), InstanceId::Id(1), 2, endpoints)
}

#[test]
fn calls_use_the_preferred_endpoint() {
    assert_eq!(proxy(both(), Transport::Udp).endpoint(), addr(2, 1));
    assert_eq!(proxy(both(), Transport::Tcp).endpoint(), addr(2, 2));
    assert_eq!(
        proxy(OfferedEndpoints::UdpOnly(addr(2, 9)), Transport::Tcp).transport(),
        Transport::Udp
    );
    let p = proxy(OfferedEndpoints::TcpOnly(addr(2, 9)), Transport::Udp);
    match p.call(MethodId::new(3).unwrap(), &[1, 2], 9) {
        Command::Call { method_id: 3, payload, response: 9, target_endpoint, target_transport, .. } => {
            assert_eq!(&payload[..], &[1, 2]);
            assert_eq!((target_endpoint, target_transport), (addr(2, 9), Transport::Tcp));
        }
        _ => panic!("a call"),
    }
    assert!(matches!(
        p.fire_and_forget(MethodId::new(3).unwrap(), &[]),
        Command::FireAndForget { method_id: 3, .. }
    ));
    assert_eq!(p.major_version(), 2);
    assert_eq!(p.instance_id(), InstanceId::Id(1));
    assert_eq!(p.service_id().value(), 0x1234);
}

#[test]
fn an_offer_lives_as_long_as_its_lifetime() {
    let p = proxy(both(), Transport::Udp);
    let known = DiscoveredService {
        udp_endpoint: None,
        tcp_endpoint: None,
        sd_endpoint: addr(2, 30490),
        minor_version: 0,
        ttl: 3,
        ttl_expires: 100,
    };
    assert!(p.is_offer_alive(Some(known), 99));
    assert!(!p.is_offer_alive(Some(known), 100));
    assert!(!p.is_offer_alive(None, 0));
}

#[test]
fn a_search_is_ended_with_its_own_wildcards() {
    let find = FindBuilder::new(service());
    assert!(matches!(
        find.command(42),
        Command::Find { instance_id: InstanceId::Any, major_version: MajorVersion::Any, notify: 42, .. }
    ));
    let answer = ServiceAvailability::Available {
        endpoint: addr(2, 5),
        transport: Transport::Tcp,
        instance_id: 7,
        major_version: 3,
    };
    let found = find.found(Some(answer), Transport::Udp).unwrap();
    assert_eq!(found.instance_id(), InstanceId::Id(7));
    assert_eq!(found.endpoint(), addr(2, 5));
    assert_eq!(found.transport(), Transport::Tcp);
    assert!(matches!(
        found.stop_find(),
        Some(Command::StopFind { instance_id: InstanceId::Any, major_version: MajorVersion::Any, .. })
    ));
    assert!(proxy(both(), Transport::Udp).stop_find().is_none());
    assert!(matches!(find.found(None, Transport::Udp), Err(Error::NotAvailable)));
    let narrow = FindBuilder::new(service())
        .instance(InstanceId::Id(3))
        .major_version(MajorVersion::new(4));
    assert!(matches!(
        narrow.command(1),
        Command::Find { instance_id: InstanceId::Id(3), major_version: MajorVersion::Exact(4), .. }
    ));
}

fn conflict() -> Error {
    Error::Io(IoError { kind: IoErrorKind::AddrInUse, message: "taken".to_string() })
}

fn attempts(policy: Vec<TransportPreference>, endpoints: OfferedEndpoints) -> SubscribeAttempts {
    proxy(endpoints, Transport::Udp)
        .subscribe(eg(5), TransportPolicy::new(policy))
        .and(eg(6))
        .subscribe()
}

#[test]
fn transports_are_tried_in_order_until_one_fits() {
    let policy = vec![
        TransportPreference::udp().with_port(1000),
        TransportPreference::tcp(),
        TransportPreference::udp().with_port(1001),
    ];
    let mut a = attempts(policy, both());
    for (transport, remote, port) in [
        (Transport::Udp, addr(2, 1), PortSpec::Fixed(1000)),
        (Transport::Tcp, addr(2, 2), PortSpec::Any),
    ] {
        let attempt = a.next_attempt(900, 11).unwrap();
        assert_eq!(attempt.transport, transport);
        assert_eq!(attempt.remote_endpoint, remote);
        assert_eq!(attempt.local_port, port);
        match attempt.command {
            Command::Subscribe { eventgroup_ids, events: 900, response: 11, selection, .. } => {
                assert_eq!(eventgroup_ids, vec![5, 6]);
                let selection = selection.unwrap();
                assert_eq!(selection.transport, transport);
                assert_eq!(selection.remote_endpoint, remote);
                assert_eq!(selection.local_port, port);
            }
            _ => panic!("it subscribes"),
        }
        a = match a.attempted(Err(conflict())) {
            AttemptOutcome::Again(a) => a,
            _ => panic!("a conflict is no end"),
        };
    }
    assert_eq!(a.next_attempt(900, 11).unwrap().local_port, PortSpec::Fixed(1001));
    let subscription = match a.attempted(Ok(33)) {
        AttemptOutcome::Subscribed(s) => s,
        _ => panic!("it is made"),
    };
    assert_eq!(subscription.id, 33);
    assert_eq!(subscription.eventgroups().len(), 2);
    let commands = subscription.unsubscribe();
    assert_eq!(commands.len(), 2);
    assert!(matches!(
        commands[1],
        Command::Unsubscribe { eventgroup_id: 6, subscription_id: 33, .. }
    ));
}

#[test]
fn transports_that_are_not_offered_are_skipped() {
    let mut a = attempts(
        vec![TransportPreference::tcp(), TransportPreference::udp()],
        OfferedEndpoints::UdpOnly(addr(2, 1)),
    );
    assert_eq!(a.next_attempt(1, 2).unwrap().transport, Transport::Udp);
    let mut a = match a.attempted(Err(conflict())) {
        AttemptOutcome::Again(a) => a,
        _ => panic!("a conflict is no end"),
    };
    assert!(a.next_attempt(1, 2).is_none());
    assert_eq!(a.exhausted().text(), "I/O error: taken");
    let mut none = attempts(vec![TransportPreference::tcp()], OfferedEndpoints::UdpOnly(addr(2, 1)));
    assert!(none.next_attempt(1, 2).is_none());
    assert!(matches!(none.exhausted(), Error::TransportMismatch));
}

#[test]
fn other_failures_end_a_subscription() {
    let a = attempts(vec![TransportPreference::udp()], both());
    assert!(matches!(
        a.attempted(Err(Error::SubscriptionRejected)),
        AttemptOutcome::Failed(Error::SubscriptionRejected)
    ));
}

#[test]
fn an_event_needs_eventgroups_each_once() {
    let offering = ServiceOffering::new(service(), InstanceId::Id(1), 2);
    let event = offering.event(EventId::new(0x8001).unwrap());
    assert_eq!(
        event.create(7).err().unwrap().text(),
        "Configuration error: Event must belong to at least one eventgroup"
    );
    let event: EventBuilder = event.eventgroup(eg(5)).eventgroup(eg(6)).eventgroup(eg(5));
    assert!(matches!(
        event.create(7),
        Ok(Command::RegisterEvent { event_id: 0x8001, response: 7, .. })
    ));
    let handle = event.registered(Ok(())).ok().unwrap();
    assert_eq!(handle.id().value(), 0x8001);
    assert_eq!(handle.eventgroups().len(), 2);
    match handle.notify(&[1]) {
        Command::Notify { eventgroup_ids, event_id: 0x8001, payload, .. } => {
            assert_eq!(eventgroup_ids, vec![5, 6]);
            assert_eq!(&payload[..], &[1]);
        }
        _ => panic!("it notifies"),
    }
    let again = offering.event(EventId::new(0x8001).unwrap()).eventgroup(eg(5));
    assert!(again.registered(Err(Error::RuntimeShutdown)).is_err());
    assert!(matches!(offering.stop(), Command::StopOffer { major_version: 2, .. }));
    assert_eq!(offering.service_id().value(), 0x1234);
    assert_eq!(offering.instance_id(), InstanceId::Id(1));
}

#[test]
fn requests_become_service_events() {
    let call = |method_id| ServiceRequest::MethodCall {
        method_id,
        payload: bytes::Bytes::from_static(&[4]),
        client: addr(2, 1),
        transport: Transport::Tcp,
        response: 9,
    };
    match receive_service_event(call(3)) {
        Some(ServiceEvent::Call { method, payload, client, responder }) => {
            assert_eq!(method.value(), 3);
            assert_eq!(&payload[..], &[4]);
            assert_eq!((client.address, client.transport), (addr(2, 1), Transport::Tcp));
            assert_eq!(responder.response, Some(9));
        }
        _ => panic!("a call"),
    }
    assert!(receive_service_event(call(0x8000)).is_none());
    let subscribe = |eventgroup_id| ServiceRequest::Subscribe {
        eventgroup_id,
        client: addr(2, 1),
        transport: Transport::Udp,
    };
    assert!(matches!(
        receive_service_event(subscribe(5)),
        Some(ServiceEvent::Subscribe { eventgroup, .. }) if eventgroup.value() == 5
    ));
    assert!(receive_service_event(subscribe(0)).is_none());
    let unsubscribe = ServiceRequest::Unsubscribe {
        eventgroup_id: 5,
        client: addr(2, 1),
        transport: Transport::Udp,
    };
    assert!(matches!(
        receive_service_event(unsubscribe),
        Some(ServiceEvent::Unsubscribe { .. })
    ));
    let forget = ServiceRequest::FireForget {
        method_id: 3,
        payload: bytes::Bytes::new(),
        client: addr(2, 1),
        transport: Transport::Udp,
    };
    assert!(matches!(
        receive_service_event(forget),
        Some(ServiceEvent::FireForget { .. })
    ));
}

#[test]
fn a_responder_answers() {
    let answer = Responder { response: Some(9) }.reply(&[1, 2]).unwrap();
    assert_eq!(answer.to, 9);
    assert!(matches!(answer.reply, Reply::Payload(data) if data[..] == [1, 2]));
    let answer = Responder { response: Some(9) }
        .reply_error(ApplicationError::UnknownMethod)
        .unwrap();
    assert_eq!(answer.to, 9);
    assert!(matches!(answer.reply, Reply::Refused(ApplicationError::UnknownMethod)));
    assert!(Responder { response: None }.reply_error(ApplicationError::NotOk).is_none());
    assert!(Responder { response: None }.reply(&[]).is_none());
}

#[test]
fn static_subscribers_receive_their_eventgroups() {
    let mut bound = ServiceInstance::new(service(), InstanceId::Id(1), 2);
    let event = EventId::new(0x8001).unwrap();
    assert!(bound.notify_static(eg(5), event, &[1]).is_none());
    bound.add_static_subscriber(addr(2, 1), &[eg(5), eg(6)]);
    bound.add_static_subscriber(addr(3, 1), &[eg(6)]);
    match bound.notify_static(eg(6), event, &[1]) {
        Some(Command::NotifyStatic { eventgroup_id: 6, event_id: 0x8001, targets, payload, .. }) => {
            assert_eq!(targets, vec![addr(2, 1), addr(3, 1)]);
            assert_eq!(&payload[..], &[1]);
        }
        _ => panic!("two subscribers are notified"),
    }
    bound.add_static_subscriber(addr(2, 1), &[eg(7)]);
    assert!(bound.notify_static(eg(5), event, &[1]).is_none());
    let announced = bound.announce(Ok(())).ok().unwrap();
    assert!(matches!(
        announced.notify_static(eg(7), event, &[]),
        Some(Command::NotifyStatic { targets, .. }) if targets == vec![addr(2, 1)]
    ));
    assert!(matches!(
        announced.notify(eg(5), event, &[]),
        (Command::Notify { event_id: 0x8001, .. }, None)
    ));
    match announced.notify(eg(6), event, &[4]) {
        (
            Command::Notify { eventgroup_ids, .. },
            Some(Command::NotifyStatic { targets, payload, .. }),
        ) => {
            assert_eq!(eventgroup_ids, vec![6]);
            assert_eq!(targets, vec![addr(3, 1)]);
            assert_eq!(&payload[..], &[4]);
        }
        _ => panic!("all subscribers are notified"),
    }
    let bound = announced.stop_announcing(Ok(())).ok().unwrap();
    assert!(matches!(bound.stop(), Command::StopOffer { .. }));
    assert!(bound.announce(Err(Error::RuntimeShutdown)).is_err());
}

#[test]
fn announcements_are_asked_for() {
    let bound = ServiceInstance::new(service(), InstanceId::Id(1), 2);
    assert_eq!(
        bound.ask_to_announce(31),
        AnnouncementRequest::StartAnnouncing {
            service_id: service(),
            instance_id: InstanceId::Id(1),
            major_version: 2,
            response: 31,
        }
    );
    let announced = bound.announce(Ok(())).ok().unwrap();
    assert_eq!(
        announced.ask_to_stop_announcing(32),
        AnnouncementRequest::StopAnnouncing {
            service_id: service(),
            instance_id: InstanceId::Id(1),
            major_version: 2,
            response: 32,
        }
    );
}

#[test]
fn an_offer_without_transport_uses_the_preferred_one() {
    let config = RuntimeConfig::default();
    let offer = |b: OfferBuilder| match b.start(&config, 500, 10) {
        Command::Offer { offer_config, major_version, minor_version, .. } => (
            offer_config.udp_port,
            offer_config.tcp_port,
            major_version,
            minor_version,
        ),
        _ => panic!("an offer"),
    };
    let new = || OfferBuilder::new(service(), InstanceId::Id(1));
    assert_eq!(offer(new()), (Some(0), None, 0, 0));
    assert_eq!(offer(new().tcp().version(3, 4)), (None, Some(0), 3, 4));
    assert_eq!(
        offer(new().udp_port(7).tcp_port(8).method_config(MethodConfig::new())),
        (Some(7), Some(8), 0, 0)
    );
    assert_eq!(offer(new().udp()), (Some(0), None, 0, 0));
}

#[test]
fn settings_are_collected_and_clamped() {
    let config = recentip::configure()
        .sd_multicast_group(MulticastAddress::parse("239.255.255.250").unwrap())
        .sd_unicast(UnicastAddress::parse("192.168.1.10").unwrap())
        .sd_port(30491)
        .offer_ttl(u32::MAX)
        .find_ttl(5)
        .subscribe_ttl(0x100_0000)
        .cyclic_offer_delay(250)
        .preferred_transport(Transport::Tcp)
        .magic_cookies(true)
        .tcp_keepalive_client(None)
        .tcp_keepalive_server(None)
        .single_socket()
        .build();
    assert_eq!(config.sd_port, 30491);
    assert_eq!(config.offer_ttl, 0xFF_FFFF);
    assert_eq!(config.find_ttl, 5);
    assert_eq!(config.subscribe_ttl, 0xFF_FFFF);
    assert_eq!(config.cyclic_offer_delay, 250);
    assert_eq!(config.preferred_transport(), Transport::Tcp);
    assert!(config.magic_cookies);
    assert!(config.single_socket);
    assert_eq!(
        config.advertised_ip,
        Some(IpAddr::V4(Ipv4Addr::new(192, 168, 1, 10)))
    );
    assert_eq!(
        config.sd_multicast_addr(),
        SocketAddr::v4(Ipv4Addr::new(239, 255, 255, 250), 30491)
    );
}

#[test]
fn settings_have_defaults() {
    let b = recentip::SomeIpBuilder::default();
    assert_eq!(b.sd_port, 30490);
    assert_eq!((b.offer_ttl, b.find_ttl, b.subscribe_ttl), (3600, 3600, 3600));
    assert_eq!(b.cyclic_offer_delay, 1000);
    assert_eq!(b.transport_policy.primary(), Transport::Udp);
    let b = b.transport_policy(TransportPolicy::prefer_tcp());
    assert_eq!(b.transport_policy.primary(), Transport::Tcp);
}

#[test]
fn an_eventgroup_has_subscribers_of_either_kind() {
    let mut bound = ServiceInstance::new(service(), InstanceId::Id(1), 2);
    bound.add_static_subscriber(addr(2, 1), &[eg(5)]);
    let announced = bound.announce(Ok(())).ok().unwrap();
    assert!(announced.has_subscribers(eg(5), None));
    assert!(!announced.has_subscribers(eg(6), None));
    assert!(!announced.has_subscribers(eg(6), Some(false)));
    assert!(announced.has_subscribers(eg(6), Some(true)));
    assert!(matches!(
        announced.ask_for_subscribers(eg(6), 9),
        Command::HasSubscribers { eventgroup_id: 6, major_version: 2, response: 9, .. }
    ));
}
