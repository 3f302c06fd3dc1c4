//! How a runtime is configured.

use crate::config::{
    clamp_ttl_to_24bit, clamped_ttl, preferring, udp_then_tcp, MulticastAddress, RuntimeConfig,
    TcpKeepaliveConfig, Transport, TransportPolicy, UnicastAddress, DEFAULT_CYCLIC_OFFER_DELAY,
    DEFAULT_FIND_TTL, DEFAULT_OFFER_TTL, DEFAULT_SD_PORT, DEFAULT_SUBSCRIBE_TTL,
};
use crate::net::IpAddr;
use vstd::prelude::*;

verus! {

/// The settings of a runtime in the making. The unicast address and the multicast group of
/// service discovery have to be set, each once; `()` stands for what is not set yet.
pub struct SomeIpBuilder<Addr = (), MC = ()> {
    /// Unicast address of service discovery.
    pub sd_unicast: Addr,
    /// Multicast group of service discovery.
    pub sd_multicast: MC,
    /// Port of service discovery.
    pub sd_port: u16,
    /// One socket for multicast and unicast.
    pub single_socket: bool,
    /// Lifetime of offers, in seconds.
    pub offer_ttl: u32,
    /// Lifetime of find entries, in seconds.
    pub find_ttl: u32,
    /// Lifetime of subscriptions, in seconds.
    pub subscribe_ttl: u32,
    /// Time between two offers, in milliseconds.
    pub cyclic_offer_delay: u64,
    /// Which of the offered endpoints to use.
    pub transport_policy: TransportPolicy,
    /// Magic cookies on TCP.
    pub magic_cookies: bool,
    /// Keepalive of outgoing connections.
    pub tcp_keepalive_client: Option<TcpKeepaliveConfig>,
    /// Keepalive of incoming connections.
    pub tcp_keepalive_server: Option<TcpKeepaliveConfig>,
}

/// The settings of a runtime, with nothing set but defaults.
pub fn configure() -> (r: SomeIpBuilder<(), ()>)
    ensures
        r.is_default(),
{
    SomeIpBuilder::new()
}

impl SomeIpBuilder<(), ()> {
    /// Nothing is set but defaults.
    pub open spec fn is_default(self) -> bool {
        &&& self.sd_port == DEFAULT_SD_PORT
        &&& !self.single_socket
        &&& self.offer_ttl == DEFAULT_OFFER_TTL
        &&& self.find_ttl == DEFAULT_FIND_TTL
        &&& self.subscribe_ttl == DEFAULT_SUBSCRIBE_TTL
        &&& self.cyclic_offer_delay == DEFAULT_CYCLIC_OFFER_DELAY
        &&& self.transport_policy@ == udp_then_tcp()
        &&& !self.magic_cookies
        &&& self.tcp_keepalive_client is None
        &&& self.tcp_keepalive_server is None
    }

    /// The settings of a runtime, with nothing set but defaults.
    pub fn new() -> (r: Self)
        ensures
            r.is_default(),
    {
        SomeIpBuilder {
            sd_unicast: (),
            sd_multicast: (),
            sd_port: DEFAULT_SD_PORT,
            single_socket: false,
            offer_ttl: DEFAULT_OFFER_TTL,
            find_ttl: DEFAULT_FIND_TTL,
            subscribe_ttl: DEFAULT_SUBSCRIBE_TTL,
            cyclic_offer_delay: DEFAULT_CYCLIC_OFFER_DELAY,
            transport_policy: TransportPolicy::default(),
            magic_cookies: false,
            tcp_keepalive_client: None,
            tcp_keepalive_server: None,
        }
    }
}

impl Default for SomeIpBuilder<(), ()> {
    fn default() -> (r: Self)
        ensures
            r.is_default(),
    {
        SomeIpBuilder::new()
    }
}

impl<MC> SomeIpBuilder<(), MC> {
    /// Sets the unicast address of service discovery.
    pub fn sd_unicast(self, addr: UnicastAddress) -> (r: SomeIpBuilder<UnicastAddress, MC>)
        ensures
            r == (SomeIpBuilder::<UnicastAddress, MC> {
                sd_unicast: addr,
                sd_multicast: self.sd_multicast,
                sd_port: self.sd_port,
                single_socket: self.single_socket,
                offer_ttl: self.offer_ttl,
                find_ttl: self.find_ttl,
                subscribe_ttl: self.subscribe_ttl,
                cyclic_offer_delay: self.cyclic_offer_delay,
                transport_policy: self.transport_policy,
                magic_cookies: self.magic_cookies,
                tcp_keepalive_client: self.tcp_keepalive_client,
                tcp_keepalive_server: self.tcp_keepalive_server,
            }),
    {
        SomeIpBuilder {
            sd_unicast: addr,
            sd_multicast: self.sd_multicast,
            sd_port: self.sd_port,
            single_socket: self.single_socket,
            offer_ttl: self.offer_ttl,
            find_ttl: self.find_ttl,
            subscribe_ttl: self.subscribe_ttl,
            cyclic_offer_delay: self.cyclic_offer_delay,
            transport_policy: self.transport_policy,
            magic_cookies: self.magic_cookies,
            tcp_keepalive_client: self.tcp_keepalive_client,
            tcp_keepalive_server: self.tcp_keepalive_server,
        }
    }
}

impl<A> SomeIpBuilder<A, ()> {
    /// Sets the multicast group of service discovery.
    pub fn sd_multicast_group(self, addr: MulticastAddress) -> (r: SomeIpBuilder<
        A,
        MulticastAddress,
    >)
        ensures
            r == (SomeIpBuilder::<A, MulticastAddress> {
                sd_unicast: self.sd_unicast,
                sd_multicast: addr,
                sd_port: self.sd_port,
                single_socket: self.single_socket,
                offer_ttl: self.offer_ttl,
                find_ttl: self.find_ttl,
                subscribe_ttl: self.subscribe_ttl,
                cyclic_offer_delay: self.cyclic_offer_delay,
                transport_policy: self.transport_policy,
                magic_cookies: self.magic_cookies,
                tcp_keepalive_client: self.tcp_keepalive_client,
                tcp_keepalive_server: self.tcp_keepalive_server,
            }),
    {
        SomeIpBuilder {
            sd_unicast: self.sd_unicast,
            sd_multicast: addr,
            sd_port: self.sd_port,
            single_socket: self.single_socket,
            offer_ttl: self.offer_ttl,
            find_ttl: self.find_ttl,
            subscribe_ttl: self.subscribe_ttl,
            cyclic_offer_delay: self.cyclic_offer_delay,
            transport_policy: self.transport_policy,
            magic_cookies: self.magic_cookies,
            tcp_keepalive_client: self.tcp_keepalive_client,
            tcp_keepalive_server: self.tcp_keepalive_server,
        }
    }
}

impl<A, MC> SomeIpBuilder<A, MC> {
    /// Sets the port of service discovery.
    pub fn sd_port(self, port: u16) -> (r: Self)
        ensures
            r == (SomeIpBuilder { sd_port: port, ..self }),
    {
        SomeIpBuilder { sd_port: port, ..self }
    }

    /// Sets the lifetime of offers, in seconds; one that does not fit is clamped.
    pub fn offer_ttl(self, ttl: u32) -> (r: Self)
        ensures
            r == (SomeIpBuilder { offer_ttl: clamped_ttl(ttl), ..self }),
    {
        SomeIpBuilder { offer_ttl: clamp_ttl_to_24bit(ttl, "offer_ttl"), ..self }
    }

    /// Sets the lifetime of find entries, in seconds; one that does not fit is clamped.
    pub fn find_ttl(self, ttl: u32) -> (r: Self)
        ensures
            r == (SomeIpBuilder { find_ttl: clamped_ttl(ttl), ..self }),
    {
        SomeIpBuilder { find_ttl: clamp_ttl_to_24bit(ttl, "find_ttl"), ..self }
    }

    /// Sets the lifetime of subscriptions, in seconds; one that does not fit is clamped.
    pub fn subscribe_ttl(self, ttl: u32) -> (r: Self)
        ensures
            r == (SomeIpBuilder { subscribe_ttl: clamped_ttl(ttl), ..self }),
    {
        SomeIpBuilder { subscribe_ttl: clamp_ttl_to_24bit(ttl, "subscribe_ttl"), ..self }
    }

    /// Sets the time between two offers, in milliseconds.
    pub fn cyclic_offer_delay(self, delay_ms: u64) -> (r: Self)
        ensures
            r == (SomeIpBuilder { cyclic_offer_delay: delay_ms, ..self }),
    {
        SomeIpBuilder { cyclic_offer_delay: delay_ms, ..self }
    }

    /// Prefers a transport, with the other one as fallback.
    pub fn preferred_transport(self, transport: Transport) -> (r: Self)
        ensures
            r == (SomeIpBuilder { transport_policy: r.transport_policy, ..self }),
            r.transport_policy@ == preferring(transport),
    {
        SomeIpBuilder { transport_policy: TransportPolicy::from(transport), ..self }
    }

    /// Sets which of the offered endpoints to use.
    pub fn transport_policy(self, policy: TransportPolicy) -> (r: Self)
        ensures
            r == (SomeIpBuilder { transport_policy: policy, ..self }),
    {
        SomeIpBuilder { transport_policy: policy, ..self }
    }

    /// Sets magic cookies on TCP.
    pub fn magic_cookies(self, enabled: bool) -> (r: Self)
        ensures
            r == (SomeIpBuilder { magic_cookies: enabled, ..self }),
    {
        SomeIpBuilder { magic_cookies: enabled, ..self }
    }

    /// Sets the keepalive of outgoing connections.
    pub fn tcp_keepalive_client(self, config: Option<TcpKeepaliveConfig>) -> (r: Self)
        ensures
            r == (SomeIpBuilder { tcp_keepalive_client: config, ..self }),
    {
        SomeIpBuilder { tcp_keepalive_client: config, ..self }
    }

    /// Sets the keepalive of incoming connections.
    pub fn tcp_keepalive_server(self, config: Option<TcpKeepaliveConfig>) -> (r: Self)
        ensures
            r == (SomeIpBuilder { tcp_keepalive_server: config, ..self }),
    {
        SomeIpBuilder { tcp_keepalive_server: config, ..self }
    }

    /// Uses one socket for multicast and unicast.
    pub fn single_socket(self) -> (r: Self)
        ensures
            r == (SomeIpBuilder { single_socket: true, ..self }),
    {
        SomeIpBuilder { single_socket: true, ..self }
    }
}

impl SomeIpBuilder<UnicastAddress, MulticastAddress> {
    /// The settings with which the runtime starts; it advertises its unicast address.
    pub fn build(self) -> (r: RuntimeConfig)
        ensures
            r == (RuntimeConfig {
                sd_port: self.sd_port,
                sd_multicast: self.sd_multicast,
                sd_unicast: self.sd_unicast,
                advertised_ip: Some(IpAddr::V4(self.sd_unicast@)),
                single_socket: self.single_socket,
                offer_ttl: self.offer_ttl,
                find_ttl: self.find_ttl,
                subscribe_ttl: self.subscribe_ttl,
                cyclic_offer_delay: self.cyclic_offer_delay,
                transport_policy: self.transport_policy,
                magic_cookies: self.magic_cookies,
                tcp_keepalive_client: self.tcp_keepalive_client,
                tcp_keepalive_server: self.tcp_keepalive_server,
            }),
    {
        RuntimeConfig {
            sd_port: self.sd_port,
            sd_multicast: self.sd_multicast,
            sd_unicast: self.sd_unicast,
            advertised_ip: Some(IpAddr::V4(self.sd_unicast.get())),
            single_socket: self.single_socket,
            offer_ttl: self.offer_ttl,
            find_ttl: self.find_ttl,
            subscribe_ttl: self.subscribe_ttl,
            cyclic_offer_delay: self.cyclic_offer_delay,
            transport_policy: self.transport_policy,
            magic_cookies: self.magic_cookies,
            tcp_keepalive_client: self.tcp_keepalive_client,
            tcp_keepalive_server: self.tcp_keepalive_server,
        }
    }
}

} // verus!
