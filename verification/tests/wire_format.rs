//! Bytes on the wire.

use recentip::discovery::{L4Protocol, SdEntry, SdEntryType, SdMessage, SdOption};
use recentip::net::{Ipv4Addr, SocketAddr};
use recentip::runtime::client::event_of_datagram;
use recentip::runtime::rpc::{
    build_fire_and_forget, build_notification, build_request, build_response, can_be_sent,
};
use recentip::wire::{Header, MessageType};

fn header() -> Header {
    Header {
        service_id: 0x1234,
        method_id: 0x0421,
        length: 10,
        client_id: 0xABCD,
        session_id: 0x0001,
        protocol_version: 1,
        interface_version: 3,
        message_type: MessageType::Request,
        return_code: 0,
    }
}

#[test]
fn a_header_has_sixteen_bytes() {
    let mut out = vec![];
    header().serialize(&mut out);
    assert_eq!(
        out,
        vec![0x12, 0x34, 0x04, 0x21, 0, 0, 0, 10, 0xAB, 0xCD, 0, 1, 1, 3, 0, 0]
    );
    assert_eq!(Header::parse(&out), Some(header()));
    assert_eq!(header().payload_length(), 2);
}

#[test]
fn short_or_unknown_headers_are_no_headers() {
    let mut out = vec![];
    header().serialize(&mut out);
    assert_eq!(Header::parse(&out[..15]), None);
    out[14] = 0x55;
    assert_eq!(Header::parse(&out), None);
}

#[test]
fn a_length_below_eight_announces_no_payload() {
    let mut h = header();
    h.length = 7;
    assert_eq!(h.payload_length(), 0);
}

#[test]
fn message_types_have_their_values() {
    for (raw, t) in [
        (0x00, MessageType::Request),
        (0x01, MessageType::RequestNoReturn),
        (0x02, MessageType::Notification),
        (0x80, MessageType::Response),
        (0x81, MessageType::Error),
        (0x20, MessageType::TpRequest),
        (0xA1, MessageType::TpError),
    ] {
        assert_eq!(MessageType::from_u8(raw), Some(t));
        assert_eq!(t.as_u8(), raw);
    }
    assert_eq!(MessageType::from_u8(0x03), None);
}

#[test]
fn a_discovery_message_reads_back() {
    let mut m = SdMessage::new(0xC0);
    let addr = Ipv4Addr::new(192, 168, 1, 10);
    let first = m.add_option(SdOption::Ipv4Endpoint {
        addr,
        port: 30509,
        protocol: L4Protocol::Udp,
    });
    let second = m.add_option(SdOption::Ipv4Endpoint {
        addr,
        port: 30510,
        protocol: L4Protocol::Tcp,
    });
    assert_eq!((first, second), (0, 1));
    m.add_entry(SdEntry::offer_service(0x1234, 1, 2, 7, 3600, 0, 2));
    let bytes = m.serialize(0x0102);
    assert_eq!(&bytes[..16], &[
        0xFF, 0xFF, 0x81, 0x00, 0, 0, 0, 60, 0, 0, 1, 2, 1, 1, 2, 0
    ]);
    assert_eq!(&bytes[16..24], &[0xC0, 0, 0, 0, 0, 0, 0, 16]);
    assert_eq!(&bytes[24..40], &[
        0x01, 0, 0, 0x20, 0x12, 0x34, 0, 1, 2, 0, 0x0E, 0x10, 0, 0, 0, 7
    ]);
    assert_eq!(&bytes[40..44], &[0, 0, 0, 24]);
    assert_eq!(&bytes[44..56], &[0, 9, 4, 0, 192, 168, 1, 10, 0, 17, 0x77, 0x2D]);
    assert_eq!(&bytes[56..68], &[0, 9, 4, 0, 192, 168, 1, 10, 0, 6, 0x77, 0x2E]);
    assert_eq!(bytes.len(), 68);
    let back = SdMessage::parse(&bytes[16..]).unwrap();
    assert_eq!(back.flags, 0xC0);
    assert_eq!(back.entries, m.entries);
    assert_eq!(back.get_udp_endpoint(&back.entries[0]), Some(SocketAddr::v4(addr, 30509)));
    assert_eq!(back.get_tcp_endpoint(&back.entries[0]), Some(SocketAddr::v4(addr, 30510)));
}

#[test]
fn a_subscription_entry_carries_counter_and_eventgroup() {
    let mut m = SdMessage::new(0x40);
    m.add_entry(SdEntry::subscribe_eventgroup(0x1111, 2, 1, 0x0203, 5, 9));
    let bytes = m.serialize(1);
    assert_eq!(&bytes[24..40], &[
        0x06, 0, 0, 0, 0x11, 0x11, 0, 2, 1, 0, 0, 5, 0, 9, 0x02, 0x03
    ]);
    let back = SdMessage::parse(&bytes[16..]).unwrap();
    assert_eq!(back.entries[0].counter, 9);
    assert_eq!(back.entries[0].eventgroup_id, 0x0203);
    assert_eq!(back.entries[0].entry_type, SdEntryType::SubscribeEventgroup);
    assert_eq!(back.get_udp_endpoint(&back.entries[0]), None);
}

#[test]
fn truncated_discovery_messages_are_refused() {
    let mut m = SdMessage::new(0x80);
    m.add_entry(SdEntry::find_service(1, 0xFFFF, 0xFF, 0xFFFF_FFFF, 3));
    let bytes = m.serialize(1);
    let payload = &bytes[16..];
    assert!(SdMessage::parse(payload).is_some());
    for n in 0..payload.len() {
        assert!(SdMessage::parse(&payload[..n]).is_none(), "{} bytes", n);
    }
}

#[test]
fn acknowledgement_and_refusal_differ_in_the_lifetime() {
    let ack = SdEntry::subscribe_eventgroup_ack(1, 2, 3, 4, 100, 5);
    let nack = SdEntry::subscribe_eventgroup_nack(1, 2, 3, 4, 5);
    assert!(!ack.is_stop());
    assert!(nack.is_stop());
    assert_eq!(ack.entry_type, nack.entry_type);
    assert!(SdEntry::stop_offer_service(1, 2, 3, 4).is_stop());
}

#[test]
fn requests_carry_their_payload() {
    let b = build_request(0x1234, 0x0007, 0x00AA, 0x00BB, 1, &[9, 8, 7]);
    assert_eq!(&b[..], &[
        0x12, 0x34, 0, 7, 0, 0, 0, 11, 0, 0xAA, 0, 0xBB, 1, 1, 0x00, 0, 9, 8, 7
    ]);
    let f = build_fire_and_forget(0x1234, 0x0007, 0x00AA, 0, 1, &[]);
    assert_eq!(&f[..], &[0x12, 0x34, 0, 7, 0, 0, 0, 8, 0, 0xAA, 0, 0, 1, 1, 0x01, 0]);
}

#[test]
fn errors_are_exceptions_only_where_configured() {
    assert_eq!(build_response(1, 2, 3, 4, 1, 0x00, &[1], true)[14], 0x80);
    assert_eq!(build_response(1, 2, 3, 4, 1, 0x01, &[], false)[14], 0x80);
    let e = build_response(1, 2, 3, 4, 1, 0x01, &[], true);
    assert_eq!(e[14], 0x81);
    assert_eq!(e[15], 0x01);
}

#[test]
fn datagrams_on_a_subscription_socket_are_events() {
    let n = build_notification(0x1234, 0x8001, 5, 0, 1, &[1, 2, 3]);
    let event = event_of_datagram(&n).unwrap();
    assert_eq!(event.event_id.value(), 0x8001);
    assert_eq!(&event.payload[..], &[1, 2, 3]);
    assert!(event_of_datagram(&n[..18]).is_none());
    let mut longer = n.to_vec();
    longer.push(99);
    assert_eq!(&event_of_datagram(&longer).unwrap().payload[..], &[1, 2, 3]);
    let method = build_notification(0x1234, 0x0001, 5, 0, 1, &[1]);
    assert!(event_of_datagram(&method).is_none());
    let request = build_request(0x1234, 0x8001, 5, 1, 1, &[1]);
    assert!(event_of_datagram(&request).is_none());
}

#[test]
fn ordinary_payloads_can_be_sent() {
    assert!(can_be_sent(&bytes::Bytes::copy_from_slice(&[0; 1400])));
    assert!(can_be_sent(&bytes::Bytes::new()));
}

#[test]
fn a_stream_is_cut_between_messages() {
    let mut stream = recentip::runtime::rpc::build_request(1, 2, 3, 4, 1, &[5, 6]).to_vec();
    assert_eq!(recentip::wire::message_length(&stream[..17]), None);
    assert_eq!(recentip::wire::message_length(&stream[..7]), None);
    assert_eq!(recentip::wire::message_length(&stream), Some(18));
    stream.push(9);
    assert_eq!(recentip::wire::message_length(&stream), Some(18));
}

#[test]
fn magic_cookies_are_messages_without_payload() {
    let client = recentip::wire::magic_cookie(false);
    assert_eq!(
        client,
        vec![0xFF, 0xFF, 0, 0, 0, 0, 0, 8, 0xDE, 0xAD, 0xBE, 0xEF, 1, 1, 1, 0]
    );
    let server = recentip::wire::magic_cookie(true);
    assert_eq!(&server[..4], &[0xFF, 0xFF, 0x80, 0]);
    assert_eq!(server[14], 2);
    assert_eq!(recentip::wire::message_length(&server), Some(16));
}
