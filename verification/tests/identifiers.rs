//! Identifiers, addresses and errors.

use recentip::config::{InvalidAddressError, MulticastAddress, UnicastAddress};
use recentip::error::{ConfigError, Error, IoError, IoErrorKind, ProtocolError};
use recentip::ids::{
    ApplicationError, EventId, EventgroupId, InstanceId, MajorVersion, MethodId, MinorVersion,
    ReturnCode, ServiceId,
};
use recentip::net::{IpAddr, Ipv4Addr};

#[test]
fn reserved_identifiers_are_refused() {
    assert!(ServiceId::new(0x0000).is_none());
    assert!(ServiceId::new(0xFFFF).is_none());
    assert_eq!(ServiceId::new(0x1234).unwrap().value(), 0x1234);
    assert!(MethodId::new(0x8000).is_none());
    assert_eq!(MethodId::new(0x7FFF).unwrap().value(), 0x7FFF);
    assert!(EventId::new(0x7FFF).is_none());
    assert!(EventId::new(0xFFFF).is_none());
    assert_eq!(EventId::new(0x8000).unwrap().value(), 0x8000);
    assert!(EventgroupId::new(0).is_none());
    assert_eq!(EventgroupId::new(1).unwrap().value(), 1);
    assert!(InstanceId::new(0).is_none());
    assert_eq!(InstanceId::new(0xFFFF), Some(InstanceId::Any));
    assert_eq!(InstanceId::new(7), Some(InstanceId::Id(7)));
    assert_eq!(InstanceId::Any.value(), 0xFFFF);
}

#[test]
fn versions_have_wildcards() {
    assert!(MajorVersion::new(0xFF).is_any());
    assert!(!MajorVersion::new(1).is_any());
    assert_eq!(MajorVersion::new(0xFF).value(), 0xFF);
    assert_eq!(MajorVersion::from(3u8).value(), 3);
    assert_eq!(MinorVersion::new(9).value(), 9);
}

#[test]
fn return_codes_of_the_wire() {
    assert_eq!(ReturnCode::from_wire(0x00), ReturnCode::Okay);
    assert_eq!(ReturnCode::from_wire(0x02), ReturnCode::UnknownService);
    assert_eq!(ReturnCode::from_wire(0x0A), ReturnCode::WrongMessageType);
    assert_eq!(ReturnCode::from_wire(0x0B), ReturnCode::NotOk);
}

#[test]
fn service_specific_errors_have_a_range() {
    assert!(ApplicationError::service_specific(0x1F).is_none());
    assert_eq!(ApplicationError::service_specific(0x20).unwrap().as_u8(), 0x20);
    assert_eq!(ApplicationError::service_specific(0x3F).unwrap().as_u8(), 0x3F);
    assert!(ApplicationError::service_specific(0x40).is_none());
    assert_eq!(ApplicationError::UnknownMethod.as_u8(), 0x03);
}

#[test]
fn addresses_are_parsed_strictly() {
    assert_eq!(Ipv4Addr::parse("192.168.1.10"), Some(Ipv4Addr::new(192, 168, 1, 10)));
    for bad in ["", "1.2.3", "1.2.3.4.5", "256.0.0.1", "01.2.3.4", "1.2.3.4 ", "a.b.c.d", "1..2.3"] {
        assert_eq!(Ipv4Addr::parse(bad), None, "{}", bad);
    }
    assert_eq!(Ipv4Addr::new(10, 0, 200, 9).text(), "10.0.200.9");
}

#[test]
fn multicast_addresses_are_checked() {
    let a = MulticastAddress::parse("239.255.255.250").unwrap();
    assert_eq!(a.get(), Ipv4Addr::new(239, 255, 255, 250));
    assert_eq!(a.text(), "239.255.255.250");
    let e = MulticastAddress::parse("192.168.1.1").unwrap_err();
    assert_eq!(
        e.text(),
        "192.168.1.1 is not a multicast address (must be in 224.0.0.0/4)"
    );
    assert!(matches!(
        MulticastAddress::parse("nonsense"),
        Err(InvalidAddressError::ParseError)
    ));
    assert!(MulticastAddress::static_try_from(Ipv4Addr::new(224, 0, 0, 1)).is_some());
    assert!(MulticastAddress::static_try_from(Ipv4Addr::new(223, 0, 0, 1)).is_none());
}

#[test]
fn unicast_addresses_are_checked() {
    assert!(UnicastAddress::parse("192.168.1.10").is_ok());
    assert_eq!(
        UnicastAddress::parse("0.0.0.0").unwrap_err().text(),
        "0.0.0.0 is not a valid unicast address; specify a routable IP"
    );
    assert_eq!(
        UnicastAddress::parse("255.255.255.255").unwrap_err().text(),
        "255.255.255.255 is not a valid unicast address"
    );
    assert_eq!(
        UnicastAddress::parse("224.0.0.1").unwrap_err().text(),
        "224.0.0.1 is a multicast address; a unicast address is required"
    );
    assert_eq!(
        UnicastAddress::parse("x").unwrap_err().text(),
        "not a valid IPv4 address"
    );
    assert!(UnicastAddress::try_from(IpAddr::V4(Ipv4Addr::new(10, 0, 0, 1))).is_ok());
    assert!(UnicastAddress::try_from(IpAddr::V6(1)).is_err());
}

#[test]
fn errors_describe_themselves() {
    let io = |kind| Error::from(IoError { kind, message: "port taken".to_string() });
    assert_eq!(io(IoErrorKind::AddrInUse).text(), "I/O error: port taken");
    assert!(io(IoErrorKind::AddrInUse).is_port_conflict());
    assert!(io(IoErrorKind::AddrNotAvailable).is_port_conflict());
    assert!(!io(IoErrorKind::Other).is_port_conflict());
    assert_eq!(
        Error::Config(ConfigError::new("bad")).text(),
        "Configuration error: bad"
    );
    assert_eq!(
        Error::Protocol(ProtocolError::new("odd")).text(),
        "Protocol error: odd"
    );
    assert_eq!(Error::ServiceUnavailable.text(), "Service unavailable");
    assert_eq!(Error::NotSubscribed.text(), "Not subscribed to eventgroup");
    assert_eq!(Error::RuntimeShutdown.text(), "SomeIp has shut down");
    assert_eq!(Error::ChannelFull.text(), "Channel full, event dropped");
    assert_eq!(
        Error::AlreadyOffered.text(),
        "Service/instance is already offered or bound"
    );
    assert_eq!(
        Error::SubscriptionRejected.text(),
        "Subscription rejected by server"
    );
    assert_eq!(Error::NotAvailable.text(), "Service could not be found");
    assert!(!Error::TransportMismatch.is_port_conflict());
}
