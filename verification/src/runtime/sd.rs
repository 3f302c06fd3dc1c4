//! Service discovery: what received entries do, and the messages that are sent.

use crate::config::Transport;
use crate::discovery::{
    L4Protocol, SdEntry, SdEntryType, SdMessage, SdMessageView, SdOption,
};
use crate::net::{IpAddr, Ipv4Addr, SocketAddr};
use crate::runtime::state::{OfferedService, ServiceKey};
use vstd::prelude::*;

verus! {

/// The address to advertise for an endpoint: the configured one where it is an IPv4
/// address, or else the endpoint's own.
pub open spec fn advertised_v4(advertised_ip: Option<IpAddr>, ep: SocketAddr) -> Ipv4Addr {
    match advertised_ip {
        Some(IpAddr::V4(ip)) => ip,
        _ => ep.ip.v4_or_localhost(),
    }
}

/// The endpoint option for an endpoint, if there is one.
pub open spec fn endpoint_options(
    ep: Option<SocketAddr>,
    protocol: L4Protocol,
    advertised_ip: Option<IpAddr>,
) -> Seq<SdOption> {
    match ep {
        Some(ep) => seq![
            SdOption::Ipv4Endpoint {
                addr: advertised_v4(advertised_ip, ep),
                port: ep.port,
                protocol,
            },
        ],
        None => Seq::empty(),
    }
}

/// The options of an offer: the UDP endpoint, then the TCP endpoint.
pub open spec fn offer_options(
    offered: OfferedService,
    advertised_ip: Option<IpAddr>,
) -> Seq<SdOption> {
    endpoint_options(offered.udp_endpoint, L4Protocol::Udp, advertised_ip) + endpoint_options(
        offered.tcp_endpoint,
        L4Protocol::Tcp,
        advertised_ip,
    )
}

/// The entry of an offer whose options stand from position `first` on.
pub open spec fn offer_entry(
    key: ServiceKey,
    offered: OfferedService,
    ttl: u32,
    first: u8,
    advertised_ip: Option<IpAddr>,
) -> SdEntry {
    let n = offer_options(offered, advertised_ip).len();
    SdEntry {
        index_1st_option: if n == 0 {
            0
        } else {
            first
        },
        num_options_1: n as u8,
        ..SdEntry::of_service(
            SdEntryType::OfferService,
            key.service_id,
            key.instance_id,
            offered.major_version,
            offered.minor_version,
            ttl,
        )
    }
}

/// A message to which an offer is appended.
pub open spec fn with_offer(
    m: SdMessageView,
    key: ServiceKey,
    offered: OfferedService,
    ttl: u32,
    advertised_ip: Option<IpAddr>,
) -> SdMessageView {
    SdMessageView {
        flags: m.flags,
        entries: m.entries.push(
            offer_entry(key, offered, ttl, (m.options.len() % 256) as u8, advertised_ip),
        ),
        options: m.options + offer_options(offered, advertised_ip),
    }
}

/// A message that offers a service.
pub open spec fn offer_message(
    key: ServiceKey,
    offered: OfferedService,
    sd_flags: u8,
    ttl: u32,
    advertised_ip: Option<IpAddr>,
) -> SdMessageView {
    with_offer(SdMessageView::empty(sd_flags), key, offered, ttl, advertised_ip)
}

/// The entry that withdraws an offer.
pub open spec fn stop_offer_entry(key: ServiceKey, offered: OfferedService) -> SdEntry {
    SdEntry::of_service(
        SdEntryType::OfferService,
        key.service_id,
        key.instance_id,
        offered.major_version,
        offered.minor_version,
        0,
    )
}

/// A message with one entry and no options.
pub open spec fn single_entry(sd_flags: u8, entry: SdEntry) -> SdMessageView {
    SdMessageView { flags: sd_flags, entries: seq![entry], options: Seq::empty() }
}

/// A message that searches a service; the minor version is always any.
pub open spec fn find_message(key: ServiceKey, sd_flags: u8, ttl: u32) -> SdMessageView {
    single_entry(
        sd_flags,
        SdEntry::of_service(
            SdEntryType::FindService,
            key.service_id,
            key.instance_id,
            key.major_version,
            0xFFFF_FFFF,
            ttl,
        ),
    )
}

/// The transport as an endpoint option names it.
pub open spec fn protocol_of(transport: Transport) -> L4Protocol {
    match transport {
        Transport::Tcp => L4Protocol::Tcp,
        Transport::Udp => L4Protocol::Udp,
    }
}

/// The entry that subscribes to an eventgroup with the first option as its endpoint.
pub open spec fn subscribe_entry(key: ServiceKey, eventgroup_id: u16, ttl: u32) -> SdEntry {
    SdEntry {
        index_1st_option: 0,
        num_options_1: 1,
        ..SdEntry::of_eventgroup(
            SdEntryType::SubscribeEventgroup,
            key.service_id,
            key.instance_id,
            key.major_version,
            eventgroup_id,
            ttl,
            0,
        )
    }
}

/// A message that subscribes to eventgroups, all with one endpoint.
pub open spec fn subscribe_message(
    key: ServiceKey,
    eventgroup_ids: Seq<u16>,
    ip: IpAddr,
    port: u16,
    sd_flags: u8,
    ttl: u32,
    transport: Transport,
) -> SdMessageView {
    SdMessageView {
        flags: sd_flags,
        entries: eventgroup_ids.map_values(|g: u16| subscribe_entry(key, g, ttl)),
        options: seq![
            SdOption::Ipv4Endpoint {
                addr: ip.v4_or_localhost(),
                port,
                protocol: protocol_of(transport),
            },
        ],
    }
}

fn add_endpoint(
    msg: &mut SdMessage,
    ep: SocketAddr,
    protocol: L4Protocol,
    advertised_ip: Option<IpAddr>,
) -> (r: u8)
    ensures
        r == old(msg)@.options.len() % 256,
        final(msg)@ == (SdMessageView {
            options: old(msg)@.options + endpoint_options(Some(ep), protocol, advertised_ip),
            ..old(msg)@
        }),
{
    let addr = match advertised_ip {
        Some(IpAddr::V4(ip)) => ip,
        _ => ep.ip.to_v4(),
    };
    let option = SdOption::Ipv4Endpoint { addr, port: ep.port, protocol };
    let ghost before = msg@;
    let r: u8 = msg.add_option(option);
    assert(msg@.options =~= before.options + endpoint_options(Some(ep), protocol, advertised_ip));
    r
}

/// Appends an offer to a message.
pub fn add_offer(
    msg: &mut SdMessage,
    key: ServiceKey,
    offered: &OfferedService,
    ttl: u32,
    advertised_ip: Option<IpAddr>,
)
    ensures
        final(msg)@ == with_offer(old(msg)@, key, *offered, ttl, advertised_ip),
{
    let ghost before = msg@;
    let mut first: u8 = 0;
    let mut num: u8 = 0;
    if let Some(ep) = offered.udp_endpoint {
        first = add_endpoint(msg, ep, L4Protocol::Udp, advertised_ip);
        num = 1;
    }
    if let Some(ep) = offered.tcp_endpoint {
        let index: u8 = add_endpoint(msg, ep, L4Protocol::Tcp, advertised_ip);
        if num == 0 {
            first = index;
        }
        num = num + 1;
    }
    msg.add_entry(
        SdEntry::offer_service(
            key.service_id,
            key.instance_id,
            offered.major_version,
            offered.minor_version,
            ttl,
            first,
            num,
        ),
    );
    assert(msg@ =~= with_offer(before, key, *offered, ttl, advertised_ip));
}

/// A message that offers a service at all its endpoints.
pub fn build_offer_message(
    key: ServiceKey,
    offered: &OfferedService,
    sd_flags: u8,
    ttl: u32,
    advertised_ip: Option<IpAddr>,
) -> (r: SdMessage)
    ensures
        r@ == offer_message(key, *offered, sd_flags, ttl, advertised_ip),
{
    let mut msg = SdMessage::new(sd_flags);
    add_offer(&mut msg, key, offered, ttl, advertised_ip);
    msg
}

/// A message that withdraws an offer.
pub fn build_stop_offer_message(key: ServiceKey, offered: &OfferedService, sd_flags: u8) -> (r:
    SdMessage)
    ensures
        r@ == single_entry(sd_flags, stop_offer_entry(key, *offered)),
{
    let mut msg = SdMessage::new(sd_flags);
    msg.add_entry(
        SdEntry::stop_offer_service(
            key.service_id,
            key.instance_id,
            offered.major_version,
            offered.minor_version,
        ),
    );
    assert(msg@ =~= single_entry(sd_flags, stop_offer_entry(key, *offered)));
    msg
}

/// A message that searches a service.
pub fn build_find_message(
    service_id: u16,
    instance_id: u16,
    major_version: u8,
    sd_flags: u8,
    ttl: u32,
) -> (r: SdMessage)
    ensures
        r@ == find_message(ServiceKey { service_id, instance_id, major_version }, sd_flags, ttl),
{
    let mut msg = SdMessage::new(sd_flags);
    msg.add_entry(
        SdEntry::find_service(service_id, instance_id, major_version, 0xFFFF_FFFF, ttl),
    );
    assert(msg@ =~= find_message(
        ServiceKey { service_id, instance_id, major_version },
        sd_flags,
        ttl,
    ));
    msg
}

/// A message that subscribes to an eventgroup.
pub fn build_subscribe_message(
    service_id: u16,
    instance_id: u16,
    major_version: u8,
    eventgroup_id: u16,
    local_endpoint: SocketAddr,
    client_rpc_port: u16,
    sd_flags: u8,
    ttl: u32,
    transport: Transport,
) -> (r: SdMessage)
    ensures
        r@ == subscribe_message(
            ServiceKey { service_id, instance_id, major_version },
            seq![eventgroup_id],
            local_endpoint.ip,
            client_rpc_port,
            sd_flags,
            ttl,
            transport,
        ),
{
    let groups: Vec<u16> = vec![eventgroup_id];
    assert(groups@ =~= seq![eventgroup_id]);
    build_subscribe_message_multi(
        service_id,
        instance_id,
        major_version,
        groups.as_slice(),
        local_endpoint,
        client_rpc_port,
        sd_flags,
        ttl,
        transport,
    )
}

/// A message that subscribes to eventgroups, all with one endpoint.
pub fn build_subscribe_message_multi(
    service_id: u16,
    instance_id: u16,
    major_version: u8,
    eventgroup_ids: &[u16],
    local_endpoint: SocketAddr,
    client_rpc_port: u16,
    sd_flags: u8,
    ttl: u32,
    transport: Transport,
) -> (r: SdMessage)
    ensures
        r@ == subscribe_message(
            ServiceKey { service_id, instance_id, major_version },
            eventgroup_ids@,
            local_endpoint.ip,
            client_rpc_port,
            sd_flags,
            ttl,
            transport,
        ),
{
    let ghost key = ServiceKey { service_id, instance_id, major_version };
    let protocol = match transport {
        Transport::Tcp => L4Protocol::Tcp,
        Transport::Udp => L4Protocol::Udp,
    };
    let mut msg = SdMessage::new(sd_flags);
    let index: u8 = msg.add_option(
        SdOption::Ipv4Endpoint { addr: local_endpoint.ip.to_v4(), port: client_rpc_port, protocol },
    );
    let ghost whole = subscribe_message(
        key,
        eventgroup_ids@,
        local_endpoint.ip,
        client_rpc_port,
        sd_flags,
        ttl,
        transport,
    );
    assert(msg@.options =~= whole.options);
    let mut i: usize = 0;
    assert(msg@.entries =~= whole.entries.take(0));
    while i < eventgroup_ids.len()
        invariant
            0 <= i <= eventgroup_ids@.len(),
            index == 0,
            key == (ServiceKey { service_id, instance_id, major_version }),
            whole.entries == eventgroup_ids@.map_values(|g: u16| subscribe_entry(key, g, ttl)),
            msg@.flags == sd_flags,
            msg@.options == whole.options,
            msg@.entries == whole.entries.take(i as int),
        decreases eventgroup_ids@.len() - i,
    {
        let mut entry = SdEntry::subscribe_eventgroup(
            service_id,
            instance_id,
            major_version,
            eventgroup_ids[i],
            ttl,
            0,
        );
        entry.index_1st_option = index;
        entry.num_options_1 = 1;
        proof {
            crate::rows::lemma_take_step(whole.entries, i as int);
            assert(whole.entries[i as int] == entry);
        }
        msg.add_entry(entry);
        i += 1;
    }
    assert(whole.entries.take(i as int) =~= whole.entries);
    assert(msg@ =~= whole);
    msg
}

/// A message that withdraws a subscription to an eventgroup.
pub fn build_unsubscribe_message(
    service_id: u16,
    instance_id: u16,
    major_version: u8,
    eventgroup_id: u16,
    local_endpoint: SocketAddr,
    client_rpc_port: u16,
    sd_flags: u8,
    transport: Transport,
) -> (r: SdMessage)
    ensures
        r@ == subscribe_message(
            ServiceKey { service_id, instance_id, major_version },
            seq![eventgroup_id],
            local_endpoint.ip,
            client_rpc_port,
            sd_flags,
            0,
            transport,
        ),
{
    let groups: Vec<u16> = vec![eventgroup_id];
    assert(groups@ =~= seq![eventgroup_id]);
    build_unsubscribe_message_multi(
        service_id,
        instance_id,
        major_version,
        groups.as_slice(),
        local_endpoint,
        client_rpc_port,
        sd_flags,
        transport,
    )
}

/// A message that withdraws subscriptions to eventgroups: the subscription message with
/// lifetime 0.
pub fn build_unsubscribe_message_multi(
    service_id: u16,
    instance_id: u16,
    major_version: u8,
    eventgroup_ids: &[u16],
    local_endpoint: SocketAddr,
    client_rpc_port: u16,
    sd_flags: u8,
    transport: Transport,
) -> (r: SdMessage)
    ensures
        r@ == subscribe_message(
            ServiceKey { service_id, instance_id, major_version },
            eventgroup_ids@,
            local_endpoint.ip,
            client_rpc_port,
            sd_flags,
            0,
            transport,
        ),
{
    build_subscribe_message_multi(
        service_id,
        instance_id,
        major_version,
        eventgroup_ids,
        local_endpoint,
        client_rpc_port,
        sd_flags,
        0,
        transport,
    )
}

/// A host that reads an offer finds the endpoints that were offered, at the advertised
/// address.
pub proof fn offer_names_its_endpoints(
    key: ServiceKey,
    offered: OfferedService,
    sd_flags: u8,
    ttl: u32,
    advertised_ip: Option<IpAddr>,
)
    ensures
        ({
            let m = offer_message(key, offered, sd_flags, ttl, advertised_ip);
            &&& m.endpoint_of(m.entries[0], L4Protocol::Udp) == (match offered.udp_endpoint {
                Some(ep) => Some(
                    SocketAddr { ip: IpAddr::V4(advertised_v4(advertised_ip, ep)), port: ep.port },
                ),
                None => None,
            })
            &&& m.endpoint_of(m.entries[0], L4Protocol::Tcp) == (match offered.tcp_endpoint {
                Some(ep) => Some(
                    SocketAddr { ip: IpAddr::V4(advertised_v4(advertised_ip, ep)), port: ep.port },
                ),
                None => None,
            })
            &&& crate::runtime::cluster::well_referenced(m)
        }),
{
    let m = offer_message(key, offered, sd_flags, ttl, advertised_ip);
    let e = m.entries[0];
    assert(m.options_of(e) =~= m.options);
    assert(m.options =~= offer_options(offered, advertised_ip));
    reveal_with_fuel(crate::discovery::first_endpoint, 3);
}

/// A host that reads a subscription finds the endpoint to which events shall go, and its
/// withdrawal names the same endpoint.
pub proof fn subscription_names_its_endpoint(
    key: ServiceKey,
    eventgroup_ids: Seq<u16>,
    ip: IpAddr,
    port: u16,
    sd_flags: u8,
    ttl: u32,
    transport: Transport,
    j: int,
)
    requires
        0 <= j < eventgroup_ids.len(),
    ensures
        ({
            let m = subscribe_message(key, eventgroup_ids, ip, port, sd_flags, ttl, transport);
            &&& m.entries.len() == eventgroup_ids.len()
            &&& m.entries[j].eventgroup_id == eventgroup_ids[j]
            &&& m.endpoint_of(m.entries[j], protocol_of(transport)) == Some(
                SocketAddr { ip: IpAddr::V4(ip.v4_or_localhost()), port },
            )
            &&& crate::runtime::cluster::well_referenced(m)
        }),
{
    let m = subscribe_message(key, eventgroup_ids, ip, port, sd_flags, ttl, transport);
    let e = m.entries[j];
    assert(m.options_of(e) =~= m.options);
    reveal_with_fuel(crate::discovery::first_endpoint, 2);
}

} // verus!
